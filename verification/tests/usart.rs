use embassy::usart::uart::{Cr1, DmaStep, Ps, ReadStep, Setup, Uart, M0, M1};
use embassy::usart::v2::{BufferedUart, ClearFlag, IrqSetup, Next, State, TxWrite};
use embassy::usart::{buffered_uart, data_byte, Config, Error, NoDma, Parity, Status};
use embassy::waker::Poll;

const NONE: Status = Status {
    pe: false,
    fe: false,
    nf: false,
    ore: false,
    idle: false,
    rxne: false,
    tc: false,
    txe: false,
};

fn uart() -> Uart<u8, NoDma, NoDma> {
    let config = Config {
        baudrate: 115200,
        parity: Parity::ParityNone,
    };
    Uart::new(1, NoDma, NoDma, 16_000_000, config).0
}

fn setup(pclk: u32, baudrate: u32, parity: Parity) -> Vec<Setup> {
    Uart::new(1u8, NoDma, NoDma, pclk, Config { baudrate, parity }).1
}

fn cr1(pce: bool, ps: Ps) -> Setup {
    Setup::Cr1(Cr1 {
        ue: true,
        te: true,
        re: true,
        m0: M0::Bit8,
        m1: M1::M0,
        pce,
        ps,
    })
}

#[test]
fn setting_up_a_port() {
    assert_eq!(
        setup(16_000_000, 115200, Parity::ParityNone),
        vec![
            Setup::RxPin,
            Setup::TxPin,
            Setup::ResetCr2,
            Setup::ResetCr3,
            Setup::Brr(139),
            cr1(false, Ps::Even),
            Setup::ResetCr2,
            Setup::ResetCr3,
        ]
    );
    assert_eq!(
        setup(16_000_000, 115200, Parity::ParityEven)[5],
        cr1(true, Ps::Even)
    );
    assert_eq!(
        setup(16_000_000, 115200, Parity::ParityOdd)[5],
        cr1(true, Ps::Odd)
    );
}

#[test]
fn divisors_are_rounded() {
    assert_eq!(setup(80_000_000, 115200, Parity::ParityNone)[4], Setup::Brr(694));
    assert_eq!(setup(7, 2, Parity::ParityNone)[4], Setup::Brr(4));
    assert_eq!(setup(5, 3, Parity::ParityNone)[4], Setup::Brr(2));
    assert_eq!(setup(4, 3, Parity::ParityNone)[4], Setup::Brr(1));
    assert_eq!(setup(0, 9600, Parity::ParityNone)[4], Setup::Brr(0));
}

#[test]
fn large_divisors_lose_their_high_bits() {
    assert_eq!(setup(65536 + 5, 1, Parity::ParityNone)[4], Setup::Brr(5));
}

#[test]
fn dma_transfers() {
    let mut u = uart();
    assert_eq!(
        u.write_dma(&[1, 2, 3]),
        (vec![DmaStep::EnableTransmit, DmaStep::Write(3)], Ok(()))
    );
    assert_eq!(
        u.read_dma(&[0; 5]),
        (vec![DmaStep::EnableReceive, DmaStep::Read(5)], Ok(()))
    );
}

#[test]
fn a_blocking_read_fills_the_buffer() {
    let mut u = uart();
    let mut read = u.read_blocking(vec![0; 2]);
    assert!(matches!(read.step(), ReadStep::Status));
    read.on_status(NONE);
    assert!(matches!(read.step(), ReadStep::Status));
    read.on_status(Status { idle: true, ..NONE });
    assert!(matches!(read.step(), ReadStep::Status));
    read.on_status(Status { rxne: true, ..NONE });
    assert!(matches!(read.step(), ReadStep::Data));
    read.on_data(0x141);
    assert!(matches!(read.step(), ReadStep::Status));
    read.on_status(Status { rxne: true, ..NONE });
    read.on_data(0x42);
    assert!(matches!(read.step(), ReadStep::Done(Ok(()))));
    assert_eq!(read.into_buffer(), vec![0x41, 0x42]);
}

#[test]
fn an_empty_blocking_read_is_done() {
    let read = uart().read_blocking(Vec::new());
    assert!(matches!(read.step(), ReadStep::Done(Ok(()))));
}

#[test]
fn a_blocking_read_reports_the_first_error() {
    let all = Status {
        pe: true,
        fe: true,
        nf: true,
        ore: true,
        rxne: true,
        ..NONE
    };
    let cases = [
        (all, Error::Parity),
        (Status { pe: false, ..all }, Error::Framing),
        (
            Status {
                pe: false,
                fe: false,
                ..all
            },
            Error::Noise,
        ),
        (
            Status {
                ore: true,
                rxne: true,
                ..NONE
            },
            Error::Overrun,
        ),
    ];
    for (sr, error) in cases {
        let mut read = uart().read_blocking(vec![7; 2]);
        read.on_status(sr);
        match read.step() {
            ReadStep::Discard(e) => assert_eq!(e, error),
            _ => panic!("no error"),
        }
        read.on_data(1);
        match read.step() {
            ReadStep::Done(r) => assert_eq!(r, Err(error)),
            _ => panic!("not over"),
        }
        assert_eq!(read.into_buffer(), vec![7; 2]);
    }
}

#[test]
fn a_blocking_write_waits_for_the_register() {
    let mut u = uart();
    let mut write = u.bwrite_all(vec![1, 255]);
    assert_eq!(write.result(), None);
    assert_eq!(write.on_status(NONE), None);
    assert_eq!(write.on_status(Status { txe: true, ..NONE }), Some(1));
    assert_eq!(write.on_status(Status { txe: true, ..NONE }), Some(255));
    assert_eq!(write.result(), Some(Ok(())));
    assert_eq!(u.bwrite_all(Vec::new()).result(), Some(Ok(())));
    assert_eq!(u.bflush(NONE), None);
    assert_eq!(u.bflush(Status { tc: true, ..NONE }), Some(Ok(())));
}

#[test]
fn data_registers_hold_a_byte() {
    assert_eq!(data_byte(0x1ff), 0xff);
    assert_eq!(data_byte(0x100), 0);
}

fn buffered(tx: usize, rx: usize) -> BufferedUart<u8, &'static str> {
    let (port, steps) = BufferedUart::new(State::new(), uart(), vec![0; tx], vec![0; rx]);
    assert_eq!(
        steps,
        vec![
            IrqSetup::Disable,
            IrqSetup::Pend,
            IrqSetup::Disable,
            IrqSetup::Pend,
            IrqSetup::EnableReceive,
        ]
    );
    port
}

/// Handles an interrupt in which these bytes arrive, with the transmit register full.
fn interrupt(port: &mut BufferedUart<u8, &'static str>, bytes: &[u8], end: Status) -> Vec<ClearFlag> {
    let state = port.state_mut();
    let mut cleared = Vec::new();
    let mut arriving = bytes.iter();
    let mut next = state.on_interrupt();
    loop {
        match next {
            Next::RxStatus => {
                let sr = if arriving.len() > 0 {
                    Status { rxne: true, ..NONE }
                } else {
                    end
                };
                let (clear, then) = state.on_rx_status(sr);
                cleared.extend(clear);
                next = then;
            }
            Next::RxData => next = state.on_rx_data(u32::from(*arriving.next().unwrap())),
            Next::TxStatus | Next::Done => return cleared,
        }
    }
}

fn fill_buf(port: &mut BufferedUart<u8, &'static str>) -> Option<Vec<u8>> {
    match port.poll_fill_buf("reader") {
        Poll::Ready(Ok(buf)) => Some(buf.to_vec()),
        Poll::Ready(Err(_)) => panic!("never fails"),
        Poll::Pending => None,
    }
}

#[test]
fn received_bytes_are_committed_when_the_line_goes_idle() {
    let mut port = buffered(4, 8);
    assert_eq!(fill_buf(&mut port), None);
    let idle = Status { idle: true, ..NONE };
    // The first interrupt only looks for room.
    assert_eq!(interrupt(&mut port, &[], NONE), vec![]);
    assert_eq!(interrupt(&mut port, &[1, 2], NONE), vec![]);
    assert_eq!(fill_buf(&mut port), None);
    assert_eq!(port.take_due().len(), 0);
    assert_eq!(interrupt(&mut port, &[3], idle), vec![ClearFlag::Idle]);
    assert_eq!(port.take_due(), vec!["reader"]);
    assert_eq!(fill_buf(&mut port), Some(vec![1, 2, 3]));
    assert!(!port.take_pend());
    port.consume(2);
    assert!(port.take_pend());
    assert!(!port.take_pend());
    assert_eq!(fill_buf(&mut port), Some(vec![3]));
    assert_eq!(interrupt(&mut port, &[], idle), vec![ClearFlag::Idle]);
    assert_eq!(fill_buf(&mut port), Some(vec![3]));
}

#[test]
fn a_full_region_is_committed_and_the_next_one_used() {
    let mut port = buffered(4, 4);
    interrupt(&mut port, &[], NONE);
    interrupt(&mut port, &[1, 2, 3, 4], NONE);
    assert_eq!(fill_buf(&mut port), Some(vec![1, 2, 3, 4]));
    // The ring is full: an interrupt finds no room.
    assert_eq!(port.state_mut().on_interrupt(), Next::TxStatus);
    port.consume(3);
    interrupt(&mut port, &[], NONE);
    interrupt(&mut port, &[5, 6, 7], NONE);
    assert_eq!(fill_buf(&mut port), Some(vec![4]));
    port.consume(1);
    assert_eq!(fill_buf(&mut port), Some(vec![5, 6, 7]));
}

#[test]
fn receive_errors_end_the_interrupt() {
    let mut port = buffered(4, 4);
    interrupt(&mut port, &[], NONE);
    assert_eq!(interrupt(&mut port, &[1], Status { pe: true, ..NONE }), vec![]);
    assert_eq!(
        interrupt(&mut port, &[], Status { fe: true, ..NONE }),
        vec![ClearFlag::Framing]
    );
    assert_eq!(
        interrupt(&mut port, &[], Status { nf: true, ..NONE }),
        vec![ClearFlag::Noise]
    );
    assert_eq!(
        interrupt(&mut port, &[], Status { ore: true, ..NONE }),
        vec![ClearFlag::Overrun]
    );
    interrupt(&mut port, &[2], Status { idle: true, ..NONE });
    assert_eq!(fill_buf(&mut port), Some(vec![1, 2]));
}

#[test]
fn written_bytes_are_transmitted_in_order() {
    let mut port = buffered(3, 4);
    let txe = Status { txe: true, ..NONE };
    assert_eq!(port.state_mut().on_tx_status(txe), (vec![], Next::Done));
    assert_eq!(port.poll_write("writer", &[1, 2, 3, 4]), Poll::Ready(Ok(3)));
    assert!(port.take_pend());
    assert_eq!(port.poll_write("writer", &[4]), Poll::Pending);
    assert!(port.take_pend());
    assert_eq!(port.state_mut().on_tx_status(NONE), (vec![], Next::Done));
    assert_eq!(
        port.state_mut().on_tx_status(txe),
        (vec![TxWrite::EnableInterrupt, TxWrite::Data(1)], Next::Done)
    );
    assert_eq!(port.state_mut().on_tx_status(NONE), (vec![], Next::TxStatus));
    assert_eq!(
        port.state_mut().on_tx_status(txe),
        (vec![TxWrite::Data(2)], Next::Done)
    );
    assert_eq!(
        port.state_mut().on_tx_status(txe),
        (vec![TxWrite::Data(3)], Next::Done)
    );
    assert_eq!(port.take_due().len(), 0);
    assert_eq!(
        port.state_mut().on_tx_status(txe),
        (vec![TxWrite::DisableInterrupt], Next::TxStatus)
    );
    assert_eq!(port.take_due(), vec!["writer"]);
    assert_eq!(port.poll_write("writer", &[4]), Poll::Ready(Ok(1)));
    assert_eq!(
        port.state_mut().on_tx_status(txe),
        (vec![TxWrite::EnableInterrupt, TxWrite::Data(4)], Next::Done)
    );
}

#[test]
fn the_layered_port_asks_for_the_interrupt_only_where_it_may_have_stopped() {
    let (mut port, step) =
        buffered_uart::BufferedUart::new(buffered_uart::State::new(), uart(), vec![0; 2], vec![0; 2]);
    assert_eq!(step, buffered_uart::IrqSetup::EnableReceive);
    assert!(matches!(port.poll_fill_buf("reader"), Poll::Pending));
    let s = port.state_mut();
    assert_eq!(s.rx.push_slice(&[1, 2]), 2);
    s.rx_waker.wake(&mut s.due);
    assert_eq!(port.take_due(), vec!["reader"]);
    match port.poll_fill_buf("reader") {
        Poll::Ready(Ok(buf)) => assert_eq!(buf, &[1, 2]),
        _ => panic!("nothing there"),
    }
    port.consume(1);
    assert!(port.take_pend());
    port.consume(1);
    assert!(!port.take_pend());
    assert_eq!(port.poll_write("writer", &[7]), Poll::Ready(Ok(1)));
    assert!(port.take_pend());
    assert_eq!(port.poll_write("writer", &[8, 9]), Poll::Ready(Ok(1)));
    assert!(!port.take_pend());
    assert_eq!(port.poll_write("writer", &[9]), Poll::Pending);
    assert!(!port.take_pend());
    assert_eq!(port.state_mut().tx.pop_buf(), &[7, 8]);
}
