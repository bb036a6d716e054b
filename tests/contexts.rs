use mlx5cmd_verified::commands::{
    AccessMode, BaseOutput, Command, CommandErrorStatus, CreateEQ, CreateMKey, CreateMKeyOutput,
    EQContext, GenEQE, MKeyContext, QueryEQ, QueryEQOutput, Wire,
};

fn sample_mkey_context() -> MKeyContext {
    MKeyContext {
        free: true,
        umr_en: false,
        a: false,
        rw: true,
        rr: true,
        lw: true,
        lr: true,
        access_mode: AccessMode::MTT,
        qpn: 0xffffff,
        mkey: 0x41,
        length64: false,
        pd: 17,
        start_addr: 0x12345678_9abcdef0,
        len: 0x41424344_45464748,
        bsf_octword_size: 0,
        translation_octword_size: 0x98765432,
        log_entry_size: 1,
    }
}

fn sample_eq_context() -> EQContext {
    EQContext {
        status: 0x7,
        ec: true,
        oi: false,
        st: 0x3,
        log_eq_size: 4,
        uar_page: 0x123456,
        intr: 0x55,
        log_page_size: 5,
        consumer_counter: 0xaa55aa,
        producer_counter: 0xbadbad,
    }
}

#[test]
fn test_create_mkeycontext() {
    let ctx = sample_mkey_context();
    assert_eq!(ctx.to_bytes().len(), 64);
    assert_eq!(&ctx.to_bytes(), &[
        1 << 6, 0x00, (15 << 2) | (1 << 0), 0x00,
        0xff, 0xff, 0xff, 0x41,
        0x00, 0x00, 0x00, 0x00,
        0x00, 0x00, 0x00, 17,
        0x12, 0x34, 0x56, 0x78,
        0x9a, 0xbc, 0xde, 0xf0,
        0x41, 0x42, 0x43, 0x44,
        0x45, 0x46, 0x47, 0x48,
        0x00, 0x00, 0x00, 0x00,
        0x00, 0x00, 0x00, 0x00,
        0x00, 0x00, 0x00, 0x00,
        0x00, 0x00, 0x00, 0x00,
        0x00, 0x00, 0x00, 0x00,
        0x98, 0x76, 0x54, 0x32,
        0x00, 0x00, 0x00, 0x01,
        0x00, 0x00, 0x00, 0x00,
    ]);
}

#[test]
fn test_eqcontext() {
    let eqctx = sample_eq_context();

    assert_eq!(eqctx.to_bytes(), vec![
        (7 << 4), (1 << 2)|(0 << 1), 0x03, 0x00,
        0x00, 0x00, 0x00, 0x00,
        0x00, 0x00, 0x00, 0x00,
        0x04, 0x12, 0x34, 0x56,
        0x00, 0x00, 0x00, 0x00,
        0x00, 0x00, 0x00, 0x55,
        0x05, 0x00, 0x00, 0x00,
        0x00, 0x00, 0x00, 0x00,
        0x00, 0x00, 0x00, 0x00,
        0x00, 0xaa, 0x55, 0xaa,
        0x00, 0xba, 0xdb, 0xad,
        0x00, 0x00, 0x00, 0x00,
        0x00, 0x00, 0x00, 0x00,
        0x00, 0x00, 0x00, 0x00,
        0x00, 0x00, 0x00, 0x00,
    ])
}

#[test]
fn test_create_eq() {
    let cmd = CreateEQ {
        ctx: sample_eq_context(),
        event_bitmask: 0x12345678aa55aa55,
        pas: vec![0x55aa55aa_55aa55aa, 0x13371337_13371337],
    };

    let bytes = cmd.to_bytes();

    assert_eq!(&bytes[0x00..0x10], vec![
        0x03, 0x01, 0x00, 0x00,
        0x00, 0x00, 0x00, 0x00,
        0x00, 0x00, 0x00, 0x00,
        0x00, 0x00, 0x00, 0x00,
    ]);

    assert_eq!(&bytes[0x10..0x50], vec![
        (7 << 4), (1 << 2)|(0 << 1), 0x03, 0x00,
        0x00, 0x00, 0x00, 0x00,
        0x00, 0x00, 0x00, 0x00,
        0x04, 0x12, 0x34, 0x56,
        0x00, 0x00, 0x00, 0x00,
        0x00, 0x00, 0x00, 0x55,
        0x05, 0x00, 0x00, 0x00,
        0x00, 0x00, 0x00, 0x00,
        0x00, 0x00, 0x00, 0x00,
        0x00, 0xaa, 0x55, 0xaa,
        0x00, 0xba, 0xdb, 0xad,
        0x00, 0x00, 0x00, 0x00,
        0x00, 0x00, 0x00, 0x00,
        0x00, 0x00, 0x00, 0x00,
        0x00, 0x00, 0x00, 0x00,
        0x00, 0x00, 0x00, 0x00,
    ]);

    assert_eq!(&bytes[0x50..0x60], vec![
        0x00, 0x00, 0x00, 0x00,
        0x00, 0x00, 0x00, 0x00,
        0x12, 0x34, 0x56, 0x78,
        0xaa, 0x55, 0xaa, 0x55,
    ]);

    assert_eq!(bytes[0x60..0x110], vec![0; 0xb0]);

    assert_eq!(bytes[0x110..], vec![
        0x55, 0xaa, 0x55, 0xaa,
        0x55, 0xaa, 0x55, 0xaa,
        0x13, 0x37, 0x13, 0x37,
        0x13, 0x37, 0x13, 0x37,
    ]);
}

#[test]
fn mkey_context_round_trip_boundaries() {
    let mut ctx = sample_mkey_context();
    ctx.access_mode = AccessMode::KLMs;
    ctx.pd = 0xff_ffff;
    ctx.log_entry_size = 31;
    ctx.length64 = true;
    ctx.umr_en = true;
    ctx.a = true;
    let bytes = ctx.to_bytes();
    assert_eq!(bytes[2] & 3, 2);
    assert_eq!(&bytes[12..16], &[0x80, 0xff, 0xff, 0xff]);
    assert_eq!(MKeyContext::from_bytes(&bytes), Some(ctx));
}

#[test]
fn mkey_context_rejects_unknown_access_mode() {
    let mut bytes = sample_mkey_context().to_bytes();
    bytes[2] |= 3;
    assert!(MKeyContext::from_bytes(&bytes).is_none());
}

#[test]
fn create_mkey_layout_and_round_trip() {
    let cmd = CreateMKey {
        pg_access: true,
        umem_valid: false,
        context: sample_mkey_context(),
        translation_octwords_actual_size: 2,
        translation_entries: vec![0x1000_0000, 0x1000_1000],
    };
    let bytes = cmd.to_bytes();
    assert_eq!(bytes.len(), cmd.size());
    assert_eq!(bytes.len(), 0x110 + 16);
    assert_eq!(&bytes[0..2], &[0x02, 0x00]);
    assert_eq!(bytes[12], 0x80);
    assert_eq!(&bytes[16..80], &sample_mkey_context().to_bytes()[..]);
    assert_eq!(&bytes[96..100], &[0, 0, 0, 2]);
    assert_eq!(&bytes[0x110..0x118], &[0, 0, 0, 0, 0x10, 0, 0, 0]);
    assert_eq!(cmd.outlen(), 0x10);
    assert_eq!(CreateMKey::from_bytes(&bytes), Some(cmd));
}

#[test]
fn create_mkey_output_index() {
    let out = CreateMKeyOutput {
        base: BaseOutput { status: CommandErrorStatus::Success, syndrome: 0 },
        mkey_index: 0xff_ffff,
    };
    let bytes = out.to_bytes();
    assert_eq!(&bytes[8..12], &[0, 0xff, 0xff, 0xff]);
    assert_eq!(CreateMKeyOutput::from_bytes(&bytes), Some(out));
}

#[test]
fn eq_context_round_trip() {
    let ctx = sample_eq_context();
    assert_eq!(EQContext::from_bytes(&ctx.to_bytes()), Some(ctx));
}

#[test]
fn create_eq_round_trip() {
    let cmd = CreateEQ { ctx: sample_eq_context(), event_bitmask: 1, pas: vec![0x2000] };
    let bytes = cmd.to_bytes();
    assert_eq!(bytes.len(), cmd.size());
    assert_eq!(CreateEQ::from_bytes(&bytes), Some(cmd));
}

#[test]
fn query_eq_and_reply() {
    let cmd = QueryEQ { eq: 0x47 };
    let bytes = cmd.to_bytes();
    assert_eq!(bytes, vec![0x03, 0x03, 0, 0, 0, 0, 0, 0, 0, 0, 0, 0x47, 0, 0, 0, 0]);
    assert_eq!(cmd.outlen(), 0x110);
    let out = QueryEQOutput {
        base: BaseOutput { status: CommandErrorStatus::Success, syndrome: 0 },
        ctx: sample_eq_context(),
        event_mask: 0xdead,
    };
    let ob = out.to_bytes();
    assert_eq!(&ob[16..76], &sample_eq_context().to_bytes()[..]);
    assert_eq!(QueryEQOutput::from_bytes(&ob), Some(out));
}

#[test]
fn gen_eqe_layout() {
    let mut eqe = [0u8; 0x40];
    eqe[0] = 0x11;
    eqe[0x3f] = 0x22;
    let cmd = GenEQE { eq: 5, eqe };
    let bytes = cmd.to_bytes();
    assert_eq!(bytes.len(), cmd.size());
    assert_eq!(&bytes[0..2], &[0x03, 0x04]);
    assert_eq!(bytes[11], 5);
    assert_eq!(bytes[0x10], 0x11);
    assert_eq!(bytes[0x4f], 0x22);
    assert_eq!(GenEQE::from_bytes(&bytes), Some(cmd));
}
