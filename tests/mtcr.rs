use mlx5cmd_verified::lifecycle::{page_action, return_request, PageAction};
use mlx5cmd_verified::commands::{ManagePagesOpMod, Command};
use mlx5cmd_verified::mtcr::{
    address_space_accepted, command_word_addr, flag_set, icmd_busy, icmd_status, itrace_payload,
    read_request, select_address_space, unlocked, with_go, with_opcode, write_request, AS_ICMD,
};

#[test]
fn address_space_selection_keeps_high_half() {
    assert_eq!(select_address_space(0xabcd_1234, AS_ICMD), 0xabcd_0003);
    assert!(address_space_accepted(0x2000_0000));
    assert!(!address_space_accepted(0x1fff_ffff));
}

#[test]
fn port_address_words() {
    assert_eq!(write_request(0xffff_fff0), 0xbfff_fff0);
    assert_eq!(read_request(0xffff_fff0), 0x3fff_fff0);
    assert!(flag_set(0x8000_0000));
    assert!(!flag_set(0x7fff_ffff));
}

#[test]
fn icmd_control_words() {
    assert_eq!(with_opcode(0x1234_5678, 0xf003), 0xf003_5678);
    assert_eq!(with_go(0x10), 0x11);
    assert!(icmd_busy(0x11));
    assert!(!icmd_busy(0x10));
    assert_eq!(icmd_status(0x0000_ab01), 0xab);
    assert_eq!(command_word_addr(3), 0x10_000c);
    assert_eq!(itrace_payload(0xdead, 7, 0x20), vec![0xdead, 0x0020_0007]);
    assert!(unlocked(0));
    assert!(!unlocked(4));
}

#[test]
fn page_actions() {
    assert_eq!(page_action(3), PageAction::Grant(3));
    assert_eq!(page_action(-2), PageAction::Reclaim(2));
    assert_eq!(page_action(0), PageAction::Nothing);
    assert_eq!(page_action(i32::MIN), PageAction::Reclaim(0x8000_0000));
    let req = return_request(2);
    assert_eq!(req.op_mod, ManagePagesOpMod::HCAReturnPages);
    assert!(req.items.is_empty());
    assert_eq!(req.outlen(), 0x20);
}
