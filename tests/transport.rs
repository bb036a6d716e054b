use mlx5cmd_verified::checksum::fold_range;
use mlx5cmd_verified::cqe::{CQE, CQE_SIGNATURE, CQE_STATUS};
use mlx5cmd_verified::error::Error;
use mlx5cmd_verified::mailbox::{Mailbox, MailboxAllocator, MAILBOX_LEN};
use mlx5cmd_verified::transport::{collect_output, owned_by_device, stage_command};

fn fold_all(bytes: &Vec<u8>) -> u8 {
    fold_range(bytes, 0, bytes.len())
}

#[test]
fn cqe_signature_makes_fold_zero() {
    let mut cqe = CQE::new();
    cqe.set_cmd_type(7);
    cqe.set_input_length(0x28);
    cqe.set_input_mb(0x1122_3344_5566_7788);
    cqe.set_status(1);
    cqe.update_signature();
    assert_eq!(fold_all(cqe.as_bytes()), 0);
    // fold of all bytes but the signature, from 0xff
    let mut expect: u8 = 0xff;
    for (i, b) in cqe.as_bytes().iter().enumerate() {
        if i != CQE_SIGNATURE {
            expect ^= b;
        }
    }
    assert_eq!(cqe.as_bytes()[CQE_SIGNATURE], expect);
}

#[test]
fn cqe_mailbox_pointers_are_big_endian() {
    let mut cqe = CQE::new();
    cqe.set_input_mb(0x0102_0304_0506_0708);
    cqe.set_output_mb(0x1112_1314_1516_1718);
    let b = cqe.as_bytes();
    assert_eq!(&b[0x08..0x10], &[1, 2, 3, 4, 5, 6, 7, 8]);
    assert_eq!(&b[0x30..0x38], &[0x11, 0x12, 0x13, 0x14, 0x15, 0x16, 0x17, 0x18]);
}

#[test]
fn fold_of_empty_range_is_ff() {
    let v = vec![1u8, 2, 3];
    assert_eq!(fold_range(&v, 1, 1), 0xff);
    assert_eq!(fold_range(&v, 0, 3), 0xff ^ 1 ^ 2 ^ 3);
}

#[test]
fn mailbox_signature_arbitrary_contents() {
    let mut mb = Mailbox::new(0x4000);
    let data: Vec<u8> = (0..0x200).map(|i| (i * 7 + 3) as u8).collect();
    mb.set_data(&data);
    mb.set_next(0xdead_beef_0000_1000);
    mb.set_block_number(5);
    mb.set_token(0x42);
    mb.update_signature();
    assert_eq!(mb.bytes.len(), MAILBOX_LEN);
    assert_eq!(fold_all(&mb.bytes), 0);
    assert_eq!(mb.bytes[0x23e], fold_range(&mb.bytes, 0x1c0, 0x200));
    assert_eq!(&mb.bytes[0x230..0x238], &[0xde, 0xad, 0xbe, 0xef, 0, 0, 0x10, 0]);
    assert_eq!(&mb.bytes[0x238..0x23c], &[0, 0, 0, 5]);
    assert_eq!(mb.bytes[0x23d], 0x42);
}

#[test]
fn mailbox_chain_lengths_and_links() {
    let data: Vec<u8> = (0..0x401).map(|i| i as u8).collect();
    let mut alloc = MailboxAllocator::new(0x10_0000, 0x10_0000);
    let chain = alloc.build_mailbox(9, &data).unwrap();
    assert_eq!(chain.len(), 3);
    let mut joined = vec![];
    for (i, mb) in chain.iter().enumerate() {
        assert_eq!(mb.addr, 0x10_0000 + 0x400 * i as u64);
        let next = u64::from_be_bytes(mb.bytes[0x230..0x238].try_into().unwrap());
        if i + 1 < chain.len() {
            assert_eq!(next, chain[i + 1].addr);
        } else {
            assert_eq!(next, 0);
        }
        assert_eq!(u32::from_be_bytes(mb.bytes[0x238..0x23c].try_into().unwrap()), i as u32);
        assert_eq!(mb.bytes[0x23d], 9);
        assert_eq!(fold_all(&mb.bytes), 0);
        let take = std::cmp::min(0x200, data.len() - 0x200 * i);
        joined.extend_from_slice(&mb.bytes[..take]);
    }
    assert_eq!(joined, data);
}

#[test]
fn mailbox_chain_empty_payload() {
    let mut alloc = MailboxAllocator::new(0, 0x1000);
    let chain = alloc.build_mailbox(0, &[]).unwrap();
    assert!(chain.is_empty());
    assert_eq!(alloc.allocation_offset, 0);
}

#[test]
fn mailbox_chain_exact_multiple() {
    let data = vec![0x5au8; 0x400];
    let mut alloc = MailboxAllocator::new(0, 0x1000);
    let chain = alloc.build_mailbox(0, &data).unwrap();
    assert_eq!(chain.len(), 2);
}

#[test]
fn mailbox_chain_without_room() {
    let data = vec![0u8; 0x201];
    let mut alloc = MailboxAllocator::new(0, 0x400);
    assert!(alloc.build_mailbox(0, &data).is_none());
    assert_eq!(alloc.allocation_offset, 0);
    assert!(alloc.allocate_mailbox().is_some());
    assert!(alloc.allocate_mailbox().is_none());
}

#[test]
fn scenario_forty_byte_input_one_block_each_way() {
    let input: Vec<u8> = (0..40).map(|i| i as u8 + 1).collect();
    let staged = stage_command(&input, 0x210, 0x2000_0000, 0x10_0000).unwrap();
    assert_eq!(staged.input_mailboxes.len(), 1);
    assert_eq!(staged.output_mailboxes.len(), 1);
    let inb = &staged.input_mailboxes[0];
    assert_eq!(&inb.bytes[..24], &input[16..]);
    assert!(inb.bytes[24..0x200].iter().all(|b| *b == 0));
    assert_eq!(inb.addr, 0x2000_0000);
    assert_eq!(staged.output_mailboxes[0].addr, 0x2000_0400);
    let c = staged.cqe.as_bytes();
    assert_eq!(c[0], 0x07);
    assert_eq!(&c[0x04..0x08], &[0, 0, 0, 40]);
    assert_eq!(&c[0x08..0x10], &[0, 0, 0, 0, 0x20, 0, 0, 0]);
    assert_eq!(&c[0x10..0x20], &input[..16]);
    assert_eq!(&c[0x30..0x38], &[0, 0, 0, 0, 0x20, 0, 0x04, 0]);
    assert_eq!(&c[0x38..0x3c], &[0, 0, 0x02, 0x10]);
    assert_eq!(c[0x3c], 0);
    assert_eq!(c[CQE_STATUS], 1);
}

#[test]
fn inline_only_command_has_no_mailboxes() {
    let input = vec![0x01u8, 0x04, 0, 0, 0, 0, 0, 0, 0, 0, 0, 0, 0, 0, 0, 0];
    let staged = stage_command(&input, 0x10, 0x1000, 0x10_0000).unwrap();
    assert!(staged.input_mailboxes.is_empty());
    assert!(staged.output_mailboxes.is_empty());
    assert_eq!(&staged.cqe.as_bytes()[0x08..0x10], &[0; 8]);
    assert_eq!(&staged.cqe.as_bytes()[0x30..0x38], &[0; 8]);
}

#[test]
fn stage_command_without_room() {
    let input = vec![0u8; 0x400];
    assert!(stage_command(&input, 0x10, 0, 0x400).is_none());
}

#[test]
fn scenario_signature_survives_round_trip() {
    let input: Vec<u8> = (0..40).map(|i| (i * 3) as u8).collect();
    let staged = stage_command(&input, 0x210, 0x3000_0000, 0x10_0000).unwrap();
    assert_eq!(fold_all(staged.cqe.as_bytes()), 0);
    for mb in staged.input_mailboxes.iter().chain(staged.output_mailboxes.iter()) {
        assert_eq!(fold_all(&mb.bytes), 0);
    }

    // The device completes the entry: inline reply bytes, one reply block,
    // and the ownership bit cleared.
    let mut bytes = staged.cqe.as_bytes().clone();
    assert!(owned_by_device(bytes[CQE_STATUS]));
    for i in 0..16 {
        bytes[0x20 + i] = 0xa0 + i as u8;
    }
    bytes[CQE_STATUS] = 0;
    assert!(!owned_by_device(bytes[CQE_STATUS]));
    let done = CQE::from_bytes(bytes).unwrap();
    let mut out_mbs = staged.output_mailboxes;
    for i in 0..0x200 {
        out_mbs[0].bytes[i] = (i % 251) as u8;
    }
    let out = collect_output(&done, &out_mbs, 0x210).unwrap();
    assert_eq!(out.len(), 0x210);
    assert_eq!(out[0], 0xa0);
    assert_eq!(out[15], 0xaf);
    assert_eq!(out[16], 0);
    assert_eq!(out[0x20f], (0x1ff % 251) as u8);
}

#[test]
fn collect_output_pads_and_truncates() {
    let mut bytes = vec![0u8; 64];
    bytes[0x20] = 9;
    let done = CQE::from_bytes(bytes).unwrap();
    let short = collect_output(&done, &vec![], 4).unwrap();
    assert_eq!(short, vec![9, 0, 0, 0]);
    let long = collect_output(&done, &vec![], 40).unwrap();
    assert_eq!(long.len(), 40);
    assert!(long[16..].iter().all(|b| *b == 0));
}

#[test]
fn collect_output_transport_error() {
    let mut bytes = vec![0u8; 64];
    bytes[CQE_STATUS] = 0x0a;
    let done = CQE::from_bytes(bytes).unwrap();
    assert_eq!(collect_output(&done, &vec![], 16), Err(Error::CmdIf(5)));
}

#[test]
fn cqe_from_bytes_checks_length() {
    assert!(CQE::from_bytes(vec![0u8; 63]).is_none());
    assert!(CQE::from_bytes(vec![0u8; 64]).is_some());
}
