use ch32_can_rs::registers::POLL_BUDGET;
use ch32_can_rs::{
    Access, Can, CanController, CanError, CanFifo, CanFilter, CanFilterMode, CanFrame, CanMode,
    NominalBitTiming, Register, Registers, StandardId, TransmitOutcome, TxStatus,
};
use std::collections::{HashMap, VecDeque};

const CONTROL_AT_RESET: u32 = 0x0001_0002;
const BIT_TIMING_AT_RESET: u32 = 0x0123_8000;
const FILTER_CONTROL_AT_RESET: u32 = 0x2A1C_0E00;

/// What happens to a frame whose transmission was requested.
#[derive(Clone, Copy, Debug, PartialEq)]
enum Wire {
    Acknowledges,
    Silent,
    Contended,
    Faulty,
}

/// A controller in software: registers that behave as the hardware's do, as
/// far as the driver can tell.
struct Simulated {
    memory: HashMap<Register, u32>,
    log: Vec<Access>,
    acknowledges_init: bool,
    stays_in_init: bool,
    init_latency: u32,
    init_countdown: u32,
    wire: Wire,
    transmit_latency: u32,
    pending: [Option<u32>; 3],
    flags: u32,
    fifos: [VecDeque<[u32; 4]>; 2],
}

fn fifo_index(fifo: CanFifo) -> usize {
    match fifo {
        CanFifo::Fifo0 => 0,
        CanFifo::Fifo1 => 1,
    }
}

impl Simulated {
    fn new() -> Self {
        let mut memory = HashMap::new();
        memory.insert(Register::Control, CONTROL_AT_RESET);
        memory.insert(Register::Status, 0x0000_0C02);
        memory.insert(Register::BitTiming, BIT_TIMING_AT_RESET);
        memory.insert(Register::FilterControl, FILTER_CONTROL_AT_RESET);
        Simulated {
            memory,
            log: Vec::new(),
            acknowledges_init: true,
            stays_in_init: false,
            init_latency: 2,
            init_countdown: 0,
            wire: Wire::Acknowledges,
            transmit_latency: 3,
            pending: [None; 3],
            flags: 0,
            fifos: [VecDeque::new(), VecDeque::new()],
        }
    }

    fn held(&self, register: Register) -> u32 {
        *self.memory.get(&register).unwrap_or(&0)
    }

    fn editing_filters(&self) -> bool {
        self.held(Register::FilterControl) & 1 != 0
    }

    fn accepts(&self, identifier_word: u32) -> Option<usize> {
        if self.editing_filters() {
            return None;
        }
        for bank in 0..28usize {
            let bit = 1u32 << bank;
            if self.held(Register::FilterActivation) & bit == 0 {
                continue;
            }
            if self.held(Register::FilterScale) & bit == 0 {
                continue;
            }
            let first = self.held(Register::FilterWord(2 * bank));
            let second = self.held(Register::FilterWord(2 * bank + 1));
            let matches = if self.held(Register::FilterMode) & bit == 0 {
                (identifier_word ^ first) & second == 0
            } else {
                identifier_word == first || identifier_word == second
            };
            if matches {
                return Some(if self.held(Register::FilterAssignment) & bit == 0 { 0 } else { 1 });
            }
        }
        None
    }

    fn finish(&mut self, mailbox: usize) {
        let shift = 8 * mailbox as u32;
        match self.wire {
            Wire::Silent => return,
            Wire::Acknowledges => {
                self.flags |= 0x3 << shift;
                let looped_back = self.held(Register::BitTiming) & 0x4000_0000 != 0;
                let identifier_word = self.held(Register::TxIdentifier(mailbox)) & !1;
                if looped_back {
                    if let Some(fifo) = self.accepts(identifier_word) {
                        if self.fifos[fifo].len() < 3 {
                            self.fifos[fifo].push_back([
                                identifier_word,
                                self.held(Register::TxLength(mailbox)),
                                self.held(Register::TxDataLow(mailbox)),
                                self.held(Register::TxDataHigh(mailbox)),
                            ]);
                        }
                    }
                }
            }
            Wire::Contended => self.flags |= 0x5 << shift,
            Wire::Faulty => self.flags |= 0x9 << shift,
        }
        self.pending[mailbox] = None;
    }

    fn transmit_status(&mut self) -> u32 {
        for mailbox in 0..3 {
            match self.pending[mailbox] {
                Some(0) => self.finish(mailbox),
                Some(left) => self.pending[mailbox] = Some(left - 1),
                None => {}
            }
        }
        let mut status = self.flags;
        for mailbox in 0..3 {
            if self.pending[mailbox].is_none() {
                status |= 0x0400_0000 << mailbox;
            }
        }
        status
    }

    fn status(&mut self) -> u32 {
        let requested = self.held(Register::Control) & 1;
        let status = self.held(Register::Status);
        let follows = self.acknowledges_init && !(self.stays_in_init && requested == 0);
        if status & 1 != requested && follows {
            if self.init_countdown == 0 {
                self.memory.insert(Register::Status, (status & !1) | requested);
            } else {
                self.init_countdown -= 1;
            }
        }
        self.held(Register::Status)
    }

    fn head(&self, fifo: CanFifo, word: usize) -> u32 {
        match self.fifos[fifo_index(fifo)].front() {
            Some(words) => words[word],
            None => 0,
        }
    }
}

impl CanController for Simulated {
    fn read(&mut self, register: Register) -> u32 {
        let value = match register {
            Register::Status => self.status(),
            Register::TransmitStatus => self.transmit_status(),
            Register::ReceiveFifo(fifo) => self.fifos[fifo_index(fifo)].len() as u32,
            Register::RxIdentifier(fifo) => self.head(fifo, 0),
            Register::RxLength(fifo) => self.head(fifo, 1),
            Register::RxDataLow(fifo) => self.head(fifo, 2),
            Register::RxDataHigh(fifo) => self.head(fifo, 3),
            other => self.held(other),
        };
        self.log.push(Access::Read { register, value });
        value
    }

    fn write(&mut self, register: Register, value: u32) {
        self.log.push(Access::Write { register, value });
        match register {
            Register::Control => {
                if (self.held(Register::Control) ^ value) & 1 != 0 {
                    self.init_countdown = self.init_latency;
                }
                self.memory.insert(register, value);
            }
            Register::Status | Register::TransmitStatus => {}
            Register::ReceiveFifo(fifo) => {
                if value & 0x20 != 0 {
                    self.fifos[fifo_index(fifo)].pop_front();
                }
            }
            Register::TxIdentifier(mailbox) => {
                self.memory.insert(register, value);
                if value & 1 != 0 {
                    self.pending[mailbox] = Some(self.transmit_latency);
                    self.flags &= !(0xF << (8 * mailbox as u32));
                }
            }
            Register::FilterMode | Register::FilterScale | Register::FilterAssignment => {
                if self.editing_filters() {
                    self.memory.insert(register, value);
                }
            }
            Register::FilterWord(word) => {
                let active = self.held(Register::FilterActivation) & (1 << (word / 2)) != 0;
                if self.editing_filters() || !active {
                    self.memory.insert(register, value);
                }
            }
            other => {
                self.memory.insert(other, value);
            }
        }
    }
}

fn read(register: Register, value: u32) -> Access {
    Access::Read { register, value }
}

fn write(register: Register, value: u32) -> Access {
    Access::Write { register, value }
}

fn frame(id: u16, data: &[u8]) -> CanFrame {
    CanFrame::new(StandardId::new(id).unwrap(), data).unwrap()
}

fn looped_back(fifo: CanFifo) -> Can<Simulated> {
    let mut can = Can::new(Simulated::new(), fifo);
    assert_eq!(can.configure(96_000_000, 500_000, CanMode::SilentLoopback), Ok(()));
    can.add_filter(CanFilter::accept_all());
    can
}

fn filter_registers(controller: &Simulated) -> Vec<u32> {
    let mut held = vec![
        controller.held(Register::FilterControl),
        controller.held(Register::FilterMode),
        controller.held(Register::FilterScale),
        controller.held(Register::FilterAssignment),
        controller.held(Register::FilterActivation),
    ];
    for word in 0..56 {
        held.push(controller.held(Register::FilterWord(word)));
    }
    held
}

#[test]
fn configure_programs_timing_between_entering_and_leaving_init() {
    let mut can = Can::new(Simulated::new(), CanFifo::Fifo0);
    assert_eq!(can.configure(96_000_000, 500_000, CanMode::SilentLoopback), Ok(()));
    let expected = vec![
        read(Register::Control, 0x0001_0002),
        write(Register::Control, 0x0001_0001),
        read(Register::Status, 0x0000_0C02),
        read(Register::Status, 0x0000_0C02),
        read(Register::Status, 0x0000_0C03),
        read(Register::BitTiming, 0x0123_8000),
        write(Register::BitTiming, 0xC36F_8007),
        read(Register::Control, 0x0001_0001),
        write(Register::Control, 0x0001_0000),
        read(Register::Status, 0x0000_0C03),
        read(Register::Status, 0x0000_0C03),
        read(Register::Status, 0x0000_0C02),
    ];
    assert_eq!(can.controller().log, expected);
}

#[test]
fn configure_writes_the_mode_bits_of_each_mode() {
    let modes = [
        (CanMode::Normal, 0x036F_8007u32),
        (CanMode::Silent, 0x836F_8007),
        (CanMode::Loopback, 0x436F_8007),
        (CanMode::SilentLoopback, 0xC36F_8007),
    ];
    for (mode, word) in modes {
        let mut can = Can::new(Simulated::new(), CanFifo::Fifo0);
        assert_eq!(can.configure(96_000_000, 500_000, mode), Ok(()));
        assert_eq!(can.controller().held(Register::BitTiming), word);
    }
}

#[test]
fn configure_replaces_mode_bits_that_were_set() {
    let mut controller = Simulated::new();
    controller.memory.insert(Register::BitTiming, 0xFFFF_FFFF);
    let mut can = Can::new(controller, CanFifo::Fifo0);
    assert_eq!(can.configure(96_000_000, 500_000, CanMode::Normal), Ok(()));
    assert_eq!(can.controller().held(Register::BitTiming), 0x3FEF_FC07);
}

#[test]
fn configure_stops_when_init_is_not_acknowledged() {
    let mut controller = Simulated::new();
    controller.acknowledges_init = false;
    let mut can = Can::new(controller, CanFifo::Fifo0);
    assert_eq!(
        can.configure(96_000_000, 500_000, CanMode::Normal),
        Err(CanError::EnterInitTimeout)
    );
    let log = &can.controller().log;
    assert_eq!(log.len(), 2 + POLL_BUDGET as usize);
    assert_eq!(log[0], read(Register::Control, 0x0001_0002));
    assert_eq!(log[1], write(Register::Control, 0x0001_0001));
    assert!(log[2..].iter().all(|access| *access == read(Register::Status, 0x0000_0C02)));
    assert_eq!(can.controller().held(Register::BitTiming), BIT_TIMING_AT_RESET);
}

#[test]
fn configure_acknowledged_at_the_last_poll_succeeds() {
    let mut controller = Simulated::new();
    controller.init_latency = POLL_BUDGET - 1;
    let mut registers = Registers::new(controller);
    assert_eq!(registers.enter_init_mode(), Ok(()));
    assert_eq!(registers.controller().log.len(), 2 + POLL_BUDGET as usize);
}

#[test]
fn enter_init_acknowledged_one_poll_too_late_times_out() {
    let mut controller = Simulated::new();
    controller.init_latency = POLL_BUDGET;
    let mut registers = Registers::new(controller);
    assert_eq!(registers.enter_init_mode(), Err(CanError::EnterInitTimeout));
    assert_eq!(registers.controller().log.len(), 2 + POLL_BUDGET as usize);
}

#[test]
fn configure_without_exact_timing_stays_in_init() {
    let mut can = Can::new(Simulated::new(), CanFifo::Fifo0);
    assert_eq!(
        can.configure(96_000_000, 499_999, CanMode::Normal),
        Err(CanError::BitTimingUnsatisfiable)
    );
    let expected = vec![
        read(Register::Control, 0x0001_0002),
        write(Register::Control, 0x0001_0001),
        read(Register::Status, 0x0000_0C02),
        read(Register::Status, 0x0000_0C02),
        read(Register::Status, 0x0000_0C03),
    ];
    assert_eq!(can.controller().log, expected);
    assert_eq!(can.controller().held(Register::BitTiming), BIT_TIMING_AT_RESET);
}

#[test]
fn configure_reports_that_init_was_not_left() {
    let mut controller = Simulated::new();
    controller.stays_in_init = true;
    let mut can = Can::new(controller, CanFifo::Fifo0);
    assert_eq!(
        can.configure(96_000_000, 500_000, CanMode::Normal),
        Err(CanError::LeaveInitTimeout)
    );
    let log = &can.controller().log;
    assert_eq!(log.len(), 5 + 2 + 2 + POLL_BUDGET as usize);
    assert_eq!(log[6], write(Register::BitTiming, 0x036F_8007));
    assert_eq!(log[8], write(Register::Control, 0x0001_0000));
    assert!(log[9..].iter().all(|access| *access == read(Register::Status, 0x0000_0C03)));
}

#[test]
fn leave_init_times_out_when_acknowledgement_stays() {
    let mut controller = Simulated::new();
    controller.memory.insert(Register::Control, 0x0001_0001);
    controller.memory.insert(Register::Status, 0x0000_0C01);
    controller.acknowledges_init = false;
    let mut registers = Registers::new(controller);
    assert_eq!(registers.leave_init_mode(), Err(CanError::LeaveInitTimeout));
    let log = &registers.controller().log;
    assert_eq!(log.len(), 2 + POLL_BUDGET as usize);
    assert_eq!(log[1], write(Register::Control, 0x0001_0000));
}

#[test]
fn leave_init_succeeds_at_once_when_not_in_init() {
    let mut registers = Registers::new(Simulated::new());
    assert_eq!(registers.leave_init_mode(), Ok(()));
    let expected = vec![
        read(Register::Control, 0x0001_0002),
        write(Register::Control, 0x0001_0002),
        read(Register::Status, 0x0000_0C02),
    ];
    assert_eq!(registers.controller().log, expected);
}

#[test]
fn set_bit_timing_and_mode_keeps_other_bits() {
    let mut registers = Registers::new(Simulated::new());
    let timing = NominalBitTiming::new(512, 1, 8, 1).unwrap();
    registers.set_bit_timing_and_mode(timing, CanMode::Loopback);
    let expected = vec![
        read(Register::BitTiming, 0x0123_8000),
        write(Register::BitTiming, 0x4070_81FF),
    ];
    assert_eq!(registers.controller().log, expected);
}

#[test]
fn poll_returns_the_first_value_waited_for() {
    let mut controller = Simulated::new();
    controller.memory.insert(Register::Control, 0x0001_0001);
    controller.init_countdown = 4;
    let mut registers = Registers::new(controller);
    assert_eq!(registers.poll(Register::Status, 0x1, true), 0x0000_0C03);
    assert_eq!(registers.controller().log.len(), 5);
    assert_eq!(registers.poll(Register::Status, 0x1, true), 0x0000_0C03);
    assert_eq!(registers.controller().log.len(), 6);
}

#[test]
fn modify_clears_then_sets() {
    let mut controller = Simulated::new();
    controller.memory.insert(Register::TxDataLow(1), 0x0000_FFFF);
    let mut registers = Registers::new(controller);
    assert_eq!(registers.modify(Register::TxDataLow(1), 0x0000_0FF0, 0x0100_0010), 0x0000_FFFF);
    let expected = vec![
        read(Register::TxDataLow(1), 0x0000_FFFF),
        write(Register::TxDataLow(1), 0x0100_F01F),
    ];
    assert_eq!(registers.controller().log, expected);
}

#[test]
fn add_filter_follows_the_editing_sequence() {
    let mut controller = Simulated::new();
    controller.memory.insert(Register::FilterMode, 0x0000_0008);
    controller.memory.insert(Register::FilterActivation, 0x0000_0009);
    controller.memory.insert(Register::FilterAssignment, 0x0000_0008);
    let mut registers = Registers::new(controller);
    let filter = CanFilter::new(3, CanFilterMode::MaskMatch, 0x62E0_0000, 0xFFE0_0000).unwrap();
    registers.add_filter(filter, &CanFifo::Fifo1);
    let expected = vec![
        read(Register::FilterControl, 0x2A1C_0E00),
        write(Register::FilterControl, 0x2A1C_0E01),
        read(Register::FilterActivation, 0x0000_0009),
        write(Register::FilterActivation, 0x0000_0001),
        read(Register::FilterScale, 0x0000_0000),
        write(Register::FilterScale, 0x0000_0008),
        write(Register::FilterWord(6), 0x62E0_0000),
        write(Register::FilterWord(7), 0xFFE0_0000),
        read(Register::FilterMode, 0x0000_0008),
        write(Register::FilterMode, 0x0000_0000),
        read(Register::FilterAssignment, 0x0000_0008),
        write(Register::FilterAssignment, 0x0000_0008),
        read(Register::FilterActivation, 0x0000_0001),
        write(Register::FilterActivation, 0x0000_0009),
        read(Register::FilterControl, 0x2A1C_0E01),
        write(Register::FilterControl, 0x2A1C_0E00),
    ];
    assert_eq!(registers.controller().log, expected);
}

#[test]
fn add_filter_list_scheme_to_fifo_0() {
    let mut controller = Simulated::new();
    controller.memory.insert(Register::FilterAssignment, 0xFFFF_FFFF);
    let mut registers = Registers::new(controller);
    let filter = CanFilter::new(27, CanFilterMode::IdentifierList, 0x2460_0000, 0x62E0_0000).unwrap();
    registers.add_filter(filter, &CanFifo::Fifo0);
    let controller = registers.free();
    assert_eq!(controller.held(Register::FilterMode), 0x0800_0000);
    assert_eq!(controller.held(Register::FilterScale), 0x0800_0000);
    assert_eq!(controller.held(Register::FilterAssignment), 0xF7FF_FFFF);
    assert_eq!(controller.held(Register::FilterActivation), 0x0800_0000);
    assert_eq!(controller.held(Register::FilterWord(54)), 0x2460_0000);
    assert_eq!(controller.held(Register::FilterWord(55)), 0x62E0_0000);
    assert_eq!(controller.held(Register::FilterControl), FILTER_CONTROL_AT_RESET);
}

#[test]
fn add_filter_twice_is_add_filter_once() {
    let filter = CanFilter::new(5, CanFilterMode::IdentifierList, 0x1234_5678, 0x9ABC_DEF0).unwrap();
    let mut once = Can::new(Simulated::new(), CanFifo::Fifo1);
    once.add_filter(filter);
    let mut twice = Can::new(Simulated::new(), CanFifo::Fifo1);
    twice.add_filter(filter);
    twice.add_filter(filter);
    assert_eq!(filter_registers(twice.controller()), filter_registers(once.controller()));
    assert_eq!(twice.controller().log.len(), 2 * once.controller().log.len());
    for identifier in [0x000u32, 0x091, 0x317, 0x4D5, 0x7FF] {
        assert_eq!(
            twice.controller().accepts(identifier << 21),
            once.controller().accepts(identifier << 21)
        );
    }
    assert_eq!(once.controller().accepts(0x1234_5678), Some(1));
    assert_eq!(once.controller().accepts(0x9ABC_DEF0), Some(1));
    assert_eq!(once.controller().accepts(0x1234_5670), None);
}

#[test]
fn add_filter_replaces_an_active_bank() {
    let mut can = Can::new(Simulated::new(), CanFifo::Fifo0);
    can.add_filter(CanFilter::new(2, CanFilterMode::MaskMatch, 0x62E0_0000, 0xFFE0_0000).unwrap());
    assert_eq!(can.controller().accepts(0x317 << 21), Some(0));
    assert_eq!(can.controller().accepts(0x318 << 21), None);
    can.add_filter(CanFilter::new(2, CanFilterMode::MaskMatch, 0x6300_0000, 0xFFE0_0000).unwrap());
    assert_eq!(can.controller().accepts(0x317 << 21), None);
    assert_eq!(can.controller().accepts(0x318 << 21), Some(0));
}

#[test]
fn transmit_then_receive_in_silent_loopback() {
    let mut can = looped_back(CanFifo::Fifo1);
    let sent = frame(0x317, &[0x01, 0x23, 0x45, 0x67, 0x89, 0xAB, 0xCD, 0xEF]);
    assert_eq!(
        can.transmit(&sent),
        TransmitOutcome::Attempted { mailbox: 0, status: TxStatus::Sent }
    );
    let received = can.receive().unwrap();
    assert_eq!(received.id().as_raw(), 0x317);
    assert_eq!(received.dlc(), 8);
    assert_eq!(received.data(), &[0x01, 0x23, 0x45, 0x67, 0x89, 0xAB, 0xCD, 0xEF]);
    assert_eq!(received, sent);
    assert_eq!(can.receive(), None);
}

#[test]
fn transmit_then_receive_short_frames() {
    let mut can = looped_back(CanFifo::Fifo0);
    let payload = [0xDEu8, 0xAD, 0xBE, 0xEF, 0x01, 0x02, 0x03, 0x04];
    for length in 0..=8usize {
        let sent = frame(0x7FF - length as u16, &payload[..length]);
        assert_eq!(
            can.transmit(&sent),
            TransmitOutcome::Attempted { mailbox: 0, status: TxStatus::Sent }
        );
        let received = can.receive().unwrap();
        assert_eq!(received.id().as_raw(), 0x7FF - length as u16);
        assert_eq!(received.data(), &payload[..length]);
        assert_eq!(received, sent);
    }
    assert_eq!(can.receive(), None);
}

#[test]
fn transmit_loads_the_mailbox_then_polls() {
    let mut controller = Simulated::new();
    controller.transmit_latency = 1;
    controller.memory.insert(Register::TxLength(0), 0xABCD_010F);
    let mut can = Can::new(controller, CanFifo::Fifo0);
    let outcome = can.transmit(&frame(0x317, &[0x01, 0x23, 0x45, 0x67, 0x89]));
    assert_eq!(outcome, TransmitOutcome::Attempted { mailbox: 0, status: TxStatus::Sent });
    let expected = vec![
        read(Register::TransmitStatus, 0x1C00_0000),
        read(Register::TxLength(0), 0xABCD_010F),
        write(Register::TxLength(0), 0xABCD_0105),
        write(Register::TxDataHigh(0), 0x0000_0089),
        write(Register::TxDataLow(0), 0x6745_2301),
        write(Register::TxIdentifier(0), 0x0000_0000),
        read(Register::TxIdentifier(0), 0x0000_0000),
        write(Register::TxIdentifier(0), 0x62E0_0001),
        read(Register::TransmitStatus, 0x1800_0000),
        read(Register::TransmitStatus, 0x1C00_0003),
    ];
    assert_eq!(can.controller().log, expected);
}

#[test]
fn transmit_without_acknowledgement_times_out() {
    let mut controller = Simulated::new();
    controller.wire = Wire::Silent;
    let mut can = Can::new(controller, CanFifo::Fifo0);
    let outcome = can.transmit(&frame(0x123, &[1, 2, 3]));
    assert_eq!(outcome, TransmitOutcome::Attempted { mailbox: 0, status: TxStatus::TimeoutError });
    assert_eq!(can.controller().log.len(), 8 + POLL_BUDGET as usize);
}

#[test]
fn transmissions_that_stay_pending_claim_distinct_mailboxes() {
    let mut controller = Simulated::new();
    controller.wire = Wire::Silent;
    let mut can = Can::new(controller, CanFifo::Fifo0);
    let first = can.transmit(&frame(0x101, &[1]));
    let second = can.transmit(&frame(0x102, &[2]));
    let third = can.transmit(&frame(0x103, &[3]));
    assert_eq!(first, TransmitOutcome::Attempted { mailbox: 0, status: TxStatus::TimeoutError });
    assert_eq!(second, TransmitOutcome::Attempted { mailbox: 1, status: TxStatus::TimeoutError });
    assert_eq!(third, TransmitOutcome::Attempted { mailbox: 2, status: TxStatus::TimeoutError });
    let before = can.controller().log.len();
    assert_eq!(can.transmit(&frame(0x104, &[4])), TransmitOutcome::MailboxesFull);
    let log = &can.controller().log;
    assert_eq!(log.len(), before + 1);
    assert_eq!(log[before], read(Register::TransmitStatus, 0x0000_0000));
    assert_eq!(can.controller().held(Register::TxIdentifier(0)), (0x101 << 21) | 1);
    assert_eq!(can.controller().held(Register::TxIdentifier(1)), (0x102 << 21) | 1);
    assert_eq!(can.controller().held(Register::TxIdentifier(2)), (0x103 << 21) | 1);
    assert_eq!(can.controller().held(Register::TxDataLow(0)), 1);
    assert_eq!(can.controller().held(Register::TxDataLow(1)), 2);
    assert_eq!(can.controller().held(Register::TxDataLow(2)), 3);
}

#[test]
fn transmit_reports_lost_arbitration() {
    let mut controller = Simulated::new();
    controller.wire = Wire::Contended;
    let mut can = Can::new(controller, CanFifo::Fifo0);
    assert_eq!(
        can.transmit(&frame(0x7FF, &[])),
        TransmitOutcome::Attempted { mailbox: 0, status: TxStatus::ArbitrationLost }
    );
}

#[test]
fn transmit_reports_other_errors() {
    let mut controller = Simulated::new();
    controller.wire = Wire::Faulty;
    let mut can = Can::new(controller, CanFifo::Fifo0);
    assert_eq!(
        can.transmit(&frame(0x000, &[0xFF; 8])),
        TransmitOutcome::Attempted { mailbox: 0, status: TxStatus::OtherError }
    );
}

#[test]
fn transmit_uses_the_first_empty_mailbox() {
    let mut controller = Simulated::new();
    controller.pending[0] = Some(u32::MAX);
    controller.pending[1] = Some(u32::MAX);
    let mut can = Can::new(controller, CanFifo::Fifo0);
    assert_eq!(
        can.transmit(&frame(0x111, &[9, 8, 7])),
        TransmitOutcome::Attempted { mailbox: 2, status: TxStatus::Sent }
    );
    assert_eq!(can.controller().held(Register::TxIdentifier(2)), (0x111 << 21) | 1);
    assert_eq!(can.controller().held(Register::TxIdentifier(0)), 0);
}

#[test]
fn transmit_status_polls_only_its_own_mailbox() {
    let mut controller = Simulated::new();
    controller.flags = 0x0003_0003;
    controller.pending[1] = Some(2);
    let mut registers = Registers::new(controller);
    assert_eq!(registers.transmit_status(1), TxStatus::Sent);
    assert_eq!(registers.controller().log.len(), 3);
    assert_eq!(registers.transmit_status(0), TxStatus::Sent);
    assert_eq!(registers.controller().log.len(), 4);
}

#[test]
fn write_mailbox_masks_identifier_and_length() {
    let mut registers = Registers::new(Simulated::new());
    registers.write_mailbox(2, 0xFFFF, 0xF8, 0x1122_3344, 0x5566_7788);
    let expected = vec![
        read(Register::TxLength(2), 0),
        write(Register::TxLength(2), 8),
        write(Register::TxDataHigh(2), 0x1122_3344),
        write(Register::TxDataLow(2), 0x5566_7788),
        write(Register::TxIdentifier(2), 0),
        read(Register::TxIdentifier(2), 0),
        write(Register::TxIdentifier(2), 0xFFE0_0001),
    ];
    assert_eq!(registers.controller().log, expected);
}

#[test]
fn find_empty_mailbox_reads_status_once() {
    let mut controller = Simulated::new();
    controller.pending[0] = Some(u32::MAX);
    let mut registers = Registers::new(controller);
    assert_eq!(registers.find_empty_mailbox(), Some(1));
    assert_eq!(registers.controller().log, vec![read(Register::TransmitStatus, 0x1800_0000)]);
}

#[test]
fn receive_on_empty_fifo_is_none_and_releases_nothing() {
    let mut can = Can::new(Simulated::new(), CanFifo::Fifo1);
    assert_eq!(can.receive(), None);
    assert_eq!(can.controller().log, vec![read(Register::ReceiveFifo(CanFifo::Fifo1), 0)]);
}

#[test]
fn receive_tells_an_empty_frame_from_no_frame() {
    let mut controller = Simulated::new();
    controller.fifos[0].push_back([0, 0, 0, 0]);
    let mut can = Can::new(controller, CanFifo::Fifo0);
    let received = can.receive();
    assert_eq!(received, Some(frame(0, &[])));
    assert_eq!(can.receive(), None);
}

#[test]
fn receive_reads_the_frame_before_releasing_it() {
    let mut controller = Simulated::new();
    controller.fifos[1].push_back([0x62E0_0000, 0x0000_0703, 0x6745_2301, 0xEFCD_AB89]);
    let mut can = Can::new(controller, CanFifo::Fifo1);
    let received = can.receive().unwrap();
    assert_eq!(received.id().as_raw(), 0x317);
    assert_eq!(received.data(), &[0x01, 0x23, 0x45]);
    let expected = vec![
        read(Register::ReceiveFifo(CanFifo::Fifo1), 1),
        read(Register::RxLength(CanFifo::Fifo1), 0x0000_0703),
        read(Register::RxIdentifier(CanFifo::Fifo1), 0x62E0_0000),
        read(Register::RxDataLow(CanFifo::Fifo1), 0x6745_2301),
        read(Register::RxDataHigh(CanFifo::Fifo1), 0xEFCD_AB89),
        write(Register::ReceiveFifo(CanFifo::Fifo1), 0x0000_0020),
    ];
    assert_eq!(can.controller().log, expected);
}

#[test]
fn receive_takes_frames_in_arrival_order() {
    let mut controller = Simulated::new();
    controller.fifos[0].push_back([0x101 << 21, 1, 0xAA, 0]);
    controller.fifos[0].push_back([0x102 << 21, 2, 0xBBCC, 0]);
    controller.fifos[0].push_back([0x103 << 21, 8, 0x0403_0201, 0x0807_0605]);
    let mut can = Can::new(controller, CanFifo::Fifo0);
    assert_eq!(can.receive(), Some(frame(0x101, &[0xAA])));
    assert_eq!(can.receive(), Some(frame(0x102, &[0xCC, 0xBB])));
    assert_eq!(can.receive(), Some(frame(0x103, &[1, 2, 3, 4, 5, 6, 7, 8])));
    assert_eq!(can.receive(), None);
}

#[test]
fn receive_reads_only_its_own_fifo() {
    let mut controller = Simulated::new();
    controller.fifos[1].push_back([0x101 << 21, 1, 0xAA, 0]);
    let mut can = Can::new(controller, CanFifo::Fifo0);
    assert_eq!(can.fifo(), CanFifo::Fifo0);
    assert_eq!(can.receive(), None);
    let mut registers = Registers::new(can.free());
    assert_eq!(registers.receive(&CanFifo::Fifo1), Some(frame(0x101, &[0xAA])));
}

#[test]
fn receive_ignores_what_lies_beyond_the_length() {
    let mut controller = Simulated::new();
    controller.fifos[0].push_back([(0x555 << 21) | 0x6, 0xFFFF_FF02, 0xFFFF_FFFF, 0xFFFF_FFFF]);
    controller.fifos[0].push_back([0x555 << 21, 0x0000_000F, 0x0403_0201, 0x0807_0605]);
    let mut can = Can::new(controller, CanFifo::Fifo0);
    assert_eq!(can.receive(), Some(frame(0x555, &[0xFF, 0xFF])));
    assert_eq!(can.receive(), Some(frame(0x555, &[1, 2, 3, 4, 5, 6, 7, 8])));
}

#[test]
fn frames_are_routed_by_the_filter_of_the_driver() {
    let mut can = Can::new(Simulated::new(), CanFifo::Fifo1);
    assert_eq!(can.configure(8_000_000, 1_000_000, CanMode::Loopback), Ok(()));
    can.add_filter(CanFilter::new(0, CanFilterMode::IdentifierList, 0x317 << 21, 0x318 << 21).unwrap());
    assert_eq!(
        can.transmit(&frame(0x316, &[1])),
        TransmitOutcome::Attempted { mailbox: 0, status: TxStatus::Sent }
    );
    assert_eq!(can.receive(), None);
    assert_eq!(
        can.transmit(&frame(0x318, &[2])),
        TransmitOutcome::Attempted { mailbox: 0, status: TxStatus::Sent }
    );
    assert_eq!(can.receive(), Some(frame(0x318, &[2])));
    assert_eq!(can.controller().fifos[0].len(), 0);
}

#[test]
fn normal_mode_does_not_hear_itself() {
    let mut can = Can::new(Simulated::new(), CanFifo::Fifo0);
    assert_eq!(can.configure(96_000_000, 500_000, CanMode::Normal), Ok(()));
    can.add_filter(CanFilter::default());
    assert_eq!(
        can.transmit(&frame(0x317, &[1, 2])),
        TransmitOutcome::Attempted { mailbox: 0, status: TxStatus::Sent }
    );
    assert_eq!(can.receive(), None);
}
