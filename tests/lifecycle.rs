use std::cell::RefCell;

use mlx5cmd_verified::allocator::Allocator;
use mlx5cmd_verified::cmdif::{
    do_command, parse_reply, read_register, write_register, Channel, CmdIf,
};
use mlx5cmd_verified::commands::{
    BaseOutput, CommandErrorStatus, EnableHCA, QueryPagesOpMod, QueryPagesOutput, Wire,
};
use mlx5cmd_verified::error::Error;
use mlx5cmd_verified::lifecycle::{HcaController, HcaState};
use mlx5cmd_verified::registers::MtrcConfReg;

const BASE: u64 = 0x1000_0000;
const PAGE: u64 = 0x1000;

/// Firmware stand-in: answers each QueryPages with the next scripted count,
/// returns the scripted addresses when asked for pages back, and records
/// every request.
struct MockFw {
    log: RefCell<Vec<Vec<u8>>>,
    page_counts: RefCell<Vec<i32>>,
    returned: RefCell<Vec<u64>>,
    fail_opcode: Option<u16>,
    register_reply: [u8; 12],
}

impl MockFw {
    fn new(page_counts: Vec<i32>) -> MockFw {
        MockFw {
            log: RefCell::new(vec![]),
            page_counts: RefCell::new(page_counts),
            returned: RefCell::new(vec![]),
            fail_opcode: None,
            register_reply: [0; 12],
        }
    }

    fn opcodes(&self) -> Vec<u16> {
        self.log.borrow().iter().map(|m| u16::from_be_bytes([m[0], m[1]])).collect()
    }
}

impl CmdIf for MockFw {
    fn exec_command(&self, input: &[u8], outlen: u32) -> Result<Vec<u8>, Error> {
        self.log.borrow_mut().push(input.to_vec());
        let opcode = u16::from_be_bytes([input[0], input[1]]);
        let mut out = vec![0u8; outlen as usize];
        if Some(opcode) == self.fail_opcode {
            out[0] = 0x03;
            out[4..8].copy_from_slice(&0x1234u32.to_be_bytes());
            return Ok(out);
        }
        match opcode {
            0x0107 => {
                let n = self.page_counts.borrow_mut().remove(0);
                out[12..16].copy_from_slice(&n.to_be_bytes());
            }
            0x0108 if input[7] == 2 => {
                let items = self.returned.borrow();
                out[8..12].copy_from_slice(&(items.len() as u32).to_be_bytes());
                for (i, a) in items.iter().enumerate() {
                    out[16 + 8 * i..24 + 8 * i].copy_from_slice(&a.to_be_bytes());
                }
            }
            0x0805 => {
                out[0x10..0x1c].copy_from_slice(&self.register_reply);
            }
            _ => {}
        }
        Ok(out)
    }
}

fn controller(pages: u64) -> HcaController {
    HcaController::new(Allocator::new(BASE, pages * PAGE, PAGE))
}

#[test]
fn scenario_no_pages_requested() {
    let fw = MockFw::new(vec![0, 0]);
    let mut ch = Channel::new(fw);
    let mut ctl = controller(64);
    assert_eq!(ctl.state(), HcaState::Uninitialized);
    ctl.initialize(&mut ch).unwrap();
    assert_eq!(ctl.state(), HcaState::Initialized);
    assert_eq!(ch.transport.opcodes(), vec![0x0104, 0x010a, 0x010b, 0x0107, 0x0100, 0x0107, 0x0102]);
    assert!(!ch.transport.opcodes().contains(&0x0108));
    let log = ch.transport.log.borrow();
    assert_eq!(&log[2][10..12], &[0, 1]);
    assert_eq!(log[3][7], 1);
    assert_eq!(log[4][7], 1);
    assert_eq!(log[5][7], 2);
    assert_eq!(ctl.pages_len(), 0);
}

#[test]
fn scenario_three_boot_pages() {
    let fw = MockFw::new(vec![3, 0]);
    let mut ch = Channel::new(fw);
    let mut ctl = controller(64);
    ctl.initialize(&mut ch).unwrap();
    let log = ch.transport.log.borrow();
    let manage: Vec<&Vec<u8>> = log.iter().filter(|m| m[0] == 0x01 && m[1] == 0x08).collect();
    assert_eq!(manage.len(), 1);
    let req = manage[0];
    assert_eq!(req[7], 1);
    assert_eq!(&req[12..16], &[0, 0, 0, 3]);
    assert_eq!(req.len(), 16 + 3 * 8);
    let mut addrs = vec![];
    for i in 0..3 {
        addrs.push(u64::from_be_bytes(req[16 + 8 * i..24 + 8 * i].try_into().unwrap()));
    }
    for a in &addrs {
        assert_eq!((a - BASE) % PAGE, 0);
        assert!(ctl.is_lent(*a));
    }
    assert!(addrs[0] != addrs[1] && addrs[1] != addrs[2] && addrs[0] != addrs[2]);
    assert_eq!(ctl.pages_len(), 3);
    // The ManagePages request follows the boot-page query.
    let pos = log.iter().position(|m| m[0] == 0x01 && m[1] == 0x08).unwrap();
    assert_eq!(&log[pos - 1][0..2], &[0x01, 0x07]);
}

#[test]
fn page_negotiation_grant_then_return() {
    let fw = MockFw::new(vec![3, -2]);
    let mut ch = Channel::new(fw);
    let mut ctl = controller(3);
    ctl.handle_page_request(&mut ch, QueryPagesOpMod::RegularPages).unwrap();
    assert_eq!(ctl.pages_len(), 3);
    let req = ch.transport.log.borrow()[1].clone();
    let granted: Vec<u64> = (0..3)
        .map(|i| u64::from_be_bytes(req[16 + 8 * i..24 + 8 * i].try_into().unwrap()))
        .collect();
    // The allocator is now full.
    assert_eq!(ctl.apply_page_count(&mut ch, 1), Err(Error::OutOfMemory));
    assert_eq!(ch.transport.log.borrow().len(), 2);

    *ch.transport.returned.borrow_mut() = vec![granted[0], granted[2]];
    ctl.handle_page_request(&mut ch, QueryPagesOpMod::RegularPages).unwrap();
    assert_eq!(ctl.pages_len(), 1);
    assert!(ctl.is_lent(granted[1]));
    let ret = ch.transport.log.borrow()[3].clone();
    assert_eq!(ret[7], 2);
    assert_eq!(&ret[12..16], &[0, 0, 0, 2]);

    // The returned pages are free again, and only those.
    ctl.apply_page_count(&mut ch, 2).unwrap();
    let regrant = ch.transport.log.borrow()[4].clone();
    let mut again: Vec<u64> = (0..2)
        .map(|i| u64::from_be_bytes(regrant[16 + 8 * i..24 + 8 * i].try_into().unwrap()))
        .collect();
    again.sort();
    let mut expect = vec![granted[0], granted[2]];
    expect.sort();
    assert_eq!(again, expect);
    assert_eq!(ctl.pages_len(), 3);
    assert_eq!(ctl.apply_page_count(&mut ch, 1), Err(Error::OutOfMemory));
}

#[test]
fn page_negotiation_out_of_memory() {
    let fw = MockFw::new(vec![5]);
    let mut ch = Channel::new(fw);
    let mut ctl = controller(2);
    assert_eq!(
        ctl.handle_page_request(&mut ch, QueryPagesOpMod::BootPages),
        Err(Error::OutOfMemory)
    );
    assert!(!ch.transport.opcodes().contains(&0x0108));
}

#[test]
fn bring_up_aborts_on_command_error() {
    let mut fw = MockFw::new(vec![0, 0]);
    fw.fail_opcode = Some(0x010b);
    let mut ch = Channel::new(fw);
    let mut ctl = controller(8);
    assert_eq!(
        ctl.initialize(&mut ch),
        Err(Error::Command { status: CommandErrorStatus::BadParameter, syndrome: 0x1234 })
    );
    assert_ne!(ctl.state(), HcaState::Initialized);
    assert_eq!(ch.transport.opcodes(), vec![0x0104, 0x010a, 0x010b]);
}

#[test]
fn do_command_decodes_reply() {
    let fw = MockFw::new(vec![]);
    let mut ch = Channel::new(fw);
    let out = do_command(&mut ch, &EnableHCA(())).unwrap();
    assert_eq!(out.base.status, CommandErrorStatus::Success);
}

#[test]
fn parse_reply_errors() {
    let short = [0u8; 4];
    assert_eq!(parse_reply::<QueryPagesOutput>(&short), Err(Error::Encoding));
    let mut failed = [0u8; 16];
    failed[0] = 0x50;
    failed[7] = 9;
    assert_eq!(
        parse_reply::<QueryPagesOutput>(&failed),
        Err(Error::Command { status: CommandErrorStatus::BadInputLen, syndrome: 9 })
    );
    let header_only = [0u8; 8];
    assert_eq!(parse_reply::<QueryPagesOutput>(&header_only), Err(Error::Encoding));
    let mut ok = [0u8; 16];
    ok[15] = 4;
    assert_eq!(
        parse_reply::<QueryPagesOutput>(&ok),
        Ok(QueryPagesOutput {
            base: BaseOutput { status: CommandErrorStatus::Success, syndrome: 0 },
            num_pages: 4
        })
    );
}

#[test]
fn register_read_and_write() {
    let mut fw = MockFw::new(vec![]);
    fw.register_reply = [0, 0, 0, 0x03, 0, 0, 0, 0x10, 0xde, 0xad, 0xbe, 0xef];
    let mut ch = Channel::new(fw);
    let reg = MtrcConfReg { trace_mode: 1, log_trace_buffer_size: 2, trace_mkey: 3 };
    let got = read_register(&mut ch, &reg, 0x77).unwrap();
    assert_eq!(got, MtrcConfReg { trace_mode: 3, log_trace_buffer_size: 0x10, trace_mkey: 0xdeadbeef });
    {
        let log = ch.transport.log.borrow();
        let req = &log[0];
        assert_eq!(&req[0..2], &[0x08, 0x05]);
        assert_eq!(req[7], 1);
        assert_eq!(&req[10..12], &[0x90, 0x41]);
        assert_eq!(&req[12..16], &[0, 0, 0, 0x77]);
        assert_eq!(&req[16..], &reg.to_bytes()[..]);
    }
    write_register(&mut ch, &reg, 0).unwrap();
    assert_eq!(ch.transport.log.borrow()[1][7], 0);
}

#[test]
fn allocator_contiguous_runs() {
    let mut a = Allocator::new(BASE, 8 * PAGE, PAGE);
    let g1 = a.allocate(3).unwrap();
    assert_eq!(g1.len, 3 * PAGE);
    assert_eq!((g1.addr - BASE) % PAGE, 0);
    let g2 = a.allocate(5).unwrap();
    assert!(g1.addr + g1.len <= g2.addr || g2.addr + g2.len <= g1.addr);
    assert!(a.allocate(1).is_none());
    a.release(g1);
    assert!(a.allocate(4).is_none());
    let g3 = a.allocate(3).unwrap();
    assert_eq!(g3.len, 3 * PAGE);
    a.release(g2);
    a.release(g3);
    assert!(a.allocate(8).is_some());
    assert!(a.allocate(9).is_none());
}

#[test]
fn allocator_fragmented_has_no_run() {
    let mut a = Allocator::new(BASE, 4 * PAGE, PAGE);
    let g0 = a.allocate(1).unwrap();
    let g1 = a.allocate(1).unwrap();
    let g2 = a.allocate(1).unwrap();
    let g3 = a.allocate(1).unwrap();
    a.release(g0);
    a.release(g2);
    assert!(a.allocate(2).is_none());
    assert!(a.allocate(1).is_some());
    drop(g1);
    drop(g3);
}

#[test]
fn zero_page_count_changes_nothing() {
    let fw = MockFw::new(vec![0]);
    let mut ch = Channel::new(fw);
    let mut ctl = controller(4);
    ctl.handle_page_request(&mut ch, QueryPagesOpMod::InitPages).unwrap();
    assert_eq!(ch.transport.opcodes(), vec![0x0107]);
    assert_eq!(ctl.pages_len(), 0);
    ctl.apply_page_count(&mut ch, 0).unwrap();
    assert_eq!(ch.transport.opcodes(), vec![0x0107]);
    ctl.apply_page_count(&mut ch, 4).unwrap();
    assert_eq!(ctl.pages_len(), 4);
}

#[test]
fn negative_page_count_sends_return_request() {
    let fw = MockFw::new(vec![]);
    let mut ch = Channel::new(fw);
    let mut ctl = controller(4);
    ctl.apply_page_count(&mut ch, -3).unwrap();
    let log = ch.transport.log.borrow();
    assert_eq!(log.len(), 1);
    assert_eq!(
        log[0],
        vec![0x01, 0x08, 0, 0, 0, 0, 0x00, 0x02, 0, 0, 0, 0, 0, 0, 0, 0x03]
    );
    assert_eq!(ctl.pages_len(), 0);
}
