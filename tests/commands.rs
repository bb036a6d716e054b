use mlx5cmd_verified::commands::{
    AccessRegister, AccessRegisterOpMod, AccessRegisterOutput, AllocPDOutput, AllocUAROutput,
    BaseOutput, Command, CommandErrorStatus, DestroyEQ, DisableHCA, EnableHCA, InitHCA,
    ManagePages, ManagePagesOpMod, ManagePagesOutput, QueryHCACap, QueryISSI, QueryISSIOutput,
    QueryPages, QueryPagesOpMod, QueryPagesOutput, SetDriverVersion, SetISSI, SetISSIOutput, Wire,
};
use mlx5cmd_verified::registers::{
    MtrcCapReg, MtrcConfReg, MtrcCtrlReg, MtrcStdbReg, Register, StringDbParam, MFBA, MFPA,
};

#[test]
fn test_init_hca() {
    let cmd = InitHCA(());

    let res = cmd.to_bytes();

    assert_eq!(res.len(), cmd.size());
    assert_eq!(res, &[0x01, 0x02, 0, 0, 0, 0, 0, 0, 0, 0, 0, 0, 0, 0, 0, 0]);
}

#[test]
fn test_enable_hca() {
    let cmd = EnableHCA(());

    let res = cmd.to_bytes();

    assert_eq!(res.len(), cmd.size());
    assert_eq!(res, &[0x01, 0x04, 0, 0, 0, 0, 0, 0, 0, 0, 0, 0, 0, 0, 0, 0]);
}

#[test]
fn test_disable_hca() {
    let cmd = DisableHCA(());

    let res = cmd.to_bytes();

    assert_eq!(res.len(), cmd.size());
    assert_eq!(res, &[0x01, 0x05, 0, 0, 0, 0, 0, 0, 0, 0, 0, 0, 0, 0, 0, 0]);
}

#[test]
fn test_query_issi() {
    let cmd = QueryISSI(());

    let res = cmd.to_bytes();

    assert_eq!(res.len(), cmd.size());
    assert_eq!(res, &[0x01, 0x0a, 0, 0, 0, 0, 0, 0, 0, 0, 0, 0, 0, 0, 0, 0]);

    let output: &[u8] = &[
        0xab, 0x00, 0x00, 0x00, 0x12, 0x34, 0x56, 0x78, 0x00, 0x00, 0xaa, 0xbb, 0x00, 0x00, 0x00, 0x00,
        0x00, 0x00, 0x00, 0x00, 0x00, 0x00, 0x00, 0x00, 0x00, 0x00, 0x00, 0x00, 0x00, 0x00, 0x00, 0x00,
        0x00, 0x01, 0x02, 0x03, 0x04, 0x05, 0x06, 0x07, 0x08, 0x09, 0x0a, 0x0b, 0x0c, 0x0d, 0x0e, 0x0f,
        0x10, 0x11, 0x12, 0x13, 0x14, 0x15, 0x16, 0x17, 0x18, 0x19, 0x1a, 0x1b, 0x1c, 0x1d, 0x1e, 0x1f,
        0x20, 0x21, 0x22, 0x23, 0x24, 0x25, 0x26, 0x27, 0x28, 0x29, 0x2a, 0x2b, 0x2c, 0x2d, 0x2e, 0x2f,
        0x30, 0x31, 0x32, 0x33, 0x34, 0x35, 0x36, 0x37, 0x38, 0x39, 0x3a, 0x3b, 0x3c, 0x3d, 0x3e, 0x3f,
        0x40, 0x41, 0x42, 0x43, 0x44, 0x45, 0x46, 0x47, 0x48, 0x49, 0x4a, 0x4b, 0x4c, 0x4d, 0x4e, 0x4f,
    ];

    assert_eq!(output.len(), cmd.outlen());

    assert_eq!(
        QueryISSIOutput::from_bytes(output).unwrap(),
        QueryISSIOutput {
            base: BaseOutput {
                status: CommandErrorStatus::UnknownError(0xab),
                syndrome: 0x12345678,
            },
            current_issi: 0xaabb,
            supported_issi: std::array::from_fn(|i| i as u8),
        }
    );
}

#[test]
fn test_set_issi() {
    let cmd = SetISSI {
        current_issi: 0x1337,
    };

    let res = cmd.to_bytes();

    assert_eq!(res.len(), cmd.size());
    assert_eq!(res, &[
        0x01, 0x0b, 0x00, 0x00, 0x00, 0x00, 0x00, 0x00, 0x00, 0x00, 0x13, 0x37, 0x00, 0x00, 0x00, 0x00
    ]);

    let output: &[u8] = &[
        0xab, 0x00, 0x00, 0x00, 0x12, 0x34, 0x56, 0x78, 0x00, 0x00, 0x00, 0x00, 0x00, 0x00, 0x00, 0x00,
    ];

    assert_eq!(output.len(), cmd.outlen());

    assert_eq!(
        SetISSIOutput::from_bytes(output).unwrap(),
        SetISSIOutput {
            base: BaseOutput {
                status: CommandErrorStatus::UnknownError(0xab),
                syndrome: 0x12345678,
            },
        }
    );
}

#[test]
fn manage_pages_test_manage_pages() {
    let cmd = ManagePages {
        op_mod: ManagePagesOpMod::AllocationSuccess,
        input_num_entries: 3,
        items: vec![0x12345678, 0x0, u64::MAX],
    };

    let res = cmd.to_bytes();
    assert_eq!(res.len(), cmd.size());

    let cmd_bytes = &[
        0x01, 0x08, 0x00, 0x00, 0x00, 0x00, 0x00, 0x01, 0x00, 0x00, 0x00, 0x00, 0x00, 0x00, 0x00, 0x03,
        0x00, 0x00, 0x00, 0x00, 0x12, 0x34, 0x56, 0x78, 0x00, 0x00, 0x00, 0x00, 0x00, 0x00, 0x00, 0x00,
        0xff, 0xff, 0xff, 0xff, 0xff, 0xff, 0xff, 0xff,
    ];

    assert_eq!(res, cmd_bytes);

    let output: &[u8] = &[
        0xab, 0x00, 0x00, 0x00, 0x12, 0x34, 0x56, 0x78, 0x00, 0x00, 0x00, 0x00, 0x00, 0x00, 0x00, 0x00,
    ];

    assert_eq!(output.len(), cmd.outlen());
    assert_eq!(
        ManagePagesOutput::from_bytes(output).unwrap(),
        ManagePagesOutput {
            base: BaseOutput {
                status: CommandErrorStatus::UnknownError(0xab),
                syndrome: 0x12345678,
            },
            output_num_entries: 0,
            items: vec![],
        }
    );
}

#[test]
fn test_query_hca_cap() {
    let cmd = QueryHCACap { op_mod: 0x01 };

    let res = cmd.to_bytes();

    assert_eq!(res.len(), cmd.size());
    assert_eq!(
        res,
        &[0x01, 0x00, 0, 0, 0, 0, 0, 0x01, 0, 0, 0, 0, 0, 0, 0, 0]
    );
}

#[test]
fn test_query_pages() {
    let cmd = QueryPages {
        op_mod: QueryPagesOpMod::BootPages,
    };

    let res = cmd.to_bytes();

    assert_eq!(res.len(), cmd.size());
    assert_eq!(
        res,
        &[0x01, 0x07, 0x0, 0x0, 0x0, 0x0, 0x0, 0x1, 0x0, 0x0, 0x0, 0x0, 0x0, 0x0, 0x0, 0x0]
    );

    let output: &[u8] = &[
        0x0, 0x0, 0x0, 0x0, 0x0, 0x0, 0x0, 0x0, 0x0, 0x0, 0x0, 0x0, 0x0, 0x0, 0x20, 0x22,
    ];

    assert_eq!(output.len(), cmd.outlen());

    assert_eq!(
        QueryPagesOutput::from_bytes(output).unwrap(),
        QueryPagesOutput {
            base: BaseOutput {
                status: CommandErrorStatus::Success,
                syndrome: 0
            },
            num_pages: 8226,
        }
    );
}

#[test]
fn test_set_driver_version() {
    let mut cmd = SetDriverVersion {
        driver_version: [0; 64],
    };

    let version = b"test-version\0";
    cmd.driver_version[..version.len()].copy_from_slice(version);

    let res = cmd.to_bytes();
    assert_eq!(res.len(), cmd.size());

    assert_eq!(
        res,
        &[
            1, 13, 0, 0, 0, 0, 0, 0, 0, 0, 0, 0, 0, 0, 0, 0, 116, 101, 115, 116, 45, 118, 101,
            114, 115, 105, 111, 110, 0, 0, 0, 0, 0, 0, 0, 0, 0, 0, 0, 0, 0, 0, 0, 0, 0, 0, 0,
            0, 0, 0, 0, 0, 0, 0, 0, 0, 0, 0, 0, 0, 0, 0, 0, 0, 0, 0, 0, 0, 0, 0, 0, 0, 0, 0, 0,
            0, 0, 0, 0, 0
        ]
    );
}

#[test]
fn test_destroy_eq() {
    let cmd = DestroyEQ {
        eq: 0x47
    };
    let bytes = cmd.to_bytes();
    assert_eq!(bytes, vec![
        0x03, 0x02, 0x00, 0x00,
        0x00, 0x00, 0x00, 0x00,
        0x00, 0x00, 0x00, 0x47,
        0x00, 0x00, 0x00, 0x00,
    ]);
}

#[test]
fn manage_pages_return_outlen_counts_entries() {
    let cmd = ManagePages {
        op_mod: ManagePagesOpMod::HCAReturnPages,
        input_num_entries: 2,
        items: vec![],
    };
    assert_eq!(cmd.size(), 0x10);
    assert_eq!(cmd.outlen(), 0x10 + 2 * 8);
}

#[test]
fn manage_pages_round_trip() {
    let cmd = ManagePages {
        op_mod: ManagePagesOpMod::HCAReturnPages,
        input_num_entries: 2,
        items: vec![0x1000, 0xffff_0000_0000_1000],
    };
    assert_eq!(ManagePages::from_bytes(&cmd.to_bytes()), Some(cmd));
}

#[test]
fn manage_pages_output_lists_returned_pages() {
    let out = ManagePagesOutput {
        base: BaseOutput { status: CommandErrorStatus::Success, syndrome: 0 },
        output_num_entries: 2,
        items: vec![0x1000_0000, 0x1000_1000],
    };
    let bytes = out.to_bytes();
    assert_eq!(bytes.len(), 0x20);
    assert_eq!(&bytes[8..12], &[0, 0, 0, 2]);
    assert_eq!(ManagePagesOutput::from_bytes(&bytes), Some(out));
}

#[test]
fn manage_pages_output_too_short_is_rejected() {
    let bytes = [0u8, 0, 0, 0, 0, 0, 0, 0, 0, 0, 0, 3, 0, 0, 0, 0, 1, 2, 3];
    assert!(ManagePagesOutput::from_bytes(&bytes).is_none());
}

#[test]
fn query_pages_rejects_unknown_op_mod() {
    let bytes = [0x01u8, 0x07, 0, 0, 0, 0, 0, 0x09, 0, 0, 0, 0, 0, 0, 0, 0];
    assert!(QueryPages::from_bytes(&bytes).is_none());
    let good = [0x01u8, 0x07, 0, 0, 0, 0, 0, 0x02, 0, 0, 0, 0, 0, 0, 0, 0];
    assert_eq!(QueryPages::from_bytes(&good).unwrap().op_mod, QueryPagesOpMod::InitPages);
}

#[test]
fn query_pages_negative_count() {
    let out = QueryPagesOutput {
        base: BaseOutput { status: CommandErrorStatus::Success, syndrome: 0 },
        num_pages: -2,
    };
    let bytes = out.to_bytes();
    assert_eq!(&bytes[12..16], &[0xff, 0xff, 0xff, 0xfe]);
    assert_eq!(QueryPagesOutput::from_bytes(&bytes), Some(out));
}

#[test]
fn status_codes_round_trip() {
    for c in 0u8..=255 {
        let s = CommandErrorStatus::from_code(c);
        assert_eq!(s.code(), c);
    }
    assert_eq!(CommandErrorStatus::from_code(0x0f), CommandErrorStatus::NoResources);
    assert_eq!(CommandErrorStatus::from_code(0x07), CommandErrorStatus::UnknownError(0x07));
    assert_eq!(CommandErrorStatus::from_code(0x51), CommandErrorStatus::BadOutputLen);
}

#[test]
fn alloc_pd_24_bit_boundary() {
    let out = AllocPDOutput {
        base: BaseOutput { status: CommandErrorStatus::BadParameter, syndrome: 0xdead_beef },
        pd: 0xff_ffff,
    };
    let bytes = out.to_bytes();
    assert_eq!(bytes, vec![0x03, 0, 0, 0, 0xde, 0xad, 0xbe, 0xef, 0x00, 0xff, 0xff, 0xff]);
    assert_eq!(AllocPDOutput::from_bytes(&bytes), Some(out));
}

#[test]
fn alloc_uar_reads_low_24_bits() {
    let bytes = [0u8, 0, 0, 0, 0, 0, 0, 0, 0xaa, 0x12, 0x34, 0x56, 0, 0, 0, 0];
    assert_eq!(AllocUAROutput::from_bytes(&bytes).unwrap().uar, 0x123456);
}

#[test]
fn query_hca_cap_output_decodes_capabilities() {
    let mut bytes = vec![0u8; 0x1010];
    bytes[0x10] = 0x5a;
    bytes[0x100f] = 0xa5;
    let out = mlx5cmd_verified::commands::QueryHCACapOutput::from_bytes(&bytes).unwrap();
    assert_eq!(out.capabilities[0], 0x5a);
    assert_eq!(out.capabilities[0xfff], 0xa5);
    assert!(mlx5cmd_verified::commands::QueryHCACapOutput::from_bytes(&bytes[..0x100f]).is_none());
}

#[test]
fn access_register_request_layout() {
    let cmd = AccessRegister {
        op_mod: AccessRegisterOpMod::Read,
        register_id: 0x1337,
        argument: 0x12345678,
        register_data: vec![0x12, 0x0, u8::MAX],
    };
    let res = cmd.to_bytes();
    assert_eq!(res.len(), cmd.size());
    assert_eq!(res, vec![
        0x08, 0x05, 0x00, 0x00, 0x00, 0x00, 0x00, 0x01, 0x00, 0x00, 0x13, 0x37, 0x12, 0x34, 0x56, 0x78,
        0x12, 0x00, 0xff,
    ]);
    assert_eq!(cmd.outlen(), 0x90);
    assert_eq!(AccessRegister::from_bytes(&res), Some(cmd));
}

#[test]
fn access_register_output_decodes_data() {
    let mut bytes = vec![0u8; 0x90];
    bytes[0] = 0xab;
    for i in 0..128 {
        bytes[0x10 + i] = 0xff;
    }
    assert_eq!(
        AccessRegisterOutput::from_bytes(&bytes).unwrap(),
        AccessRegisterOutput {
            base: BaseOutput { status: CommandErrorStatus::UnknownError(0xab), syndrome: 0 },
            register_data: [0xff; 128],
        }
    );
}

#[test]
fn mtrc_conf_reg_layout() {
    let reg = MtrcConfReg { trace_mode: 0xf, log_trace_buffer_size: 0x12, trace_mkey: 0xaabbccdd };
    let bytes = reg.to_bytes();
    assert_eq!(bytes, vec![0, 0, 0, 0x0f, 0, 0, 0, 0x12, 0xaa, 0xbb, 0xcc, 0xdd]);
    assert_eq!(bytes.len(), reg.size());
    assert_eq!(MtrcConfReg::register_id(), 0x9041);
    assert_eq!(MtrcConfReg::from_bytes(&bytes), Some(reg));
}

#[test]
fn mtrc_stdb_reg_bit_packing() {
    let mut reg = MtrcStdbReg::default();
    reg.index = 0xf;
    reg.size = 0xff_ffff;
    reg.offset = 0x100;
    reg.data[63] = 7;
    let bytes = reg.to_bytes();
    assert_eq!(bytes.len(), reg.size());
    assert_eq!(&bytes[..8], &[0xf0, 0xff, 0xff, 0xff, 0, 0, 1, 0]);
    assert_eq!(bytes[71], 7);
    assert_eq!(MtrcStdbReg::from_bytes(&bytes), Some(reg));
    assert_eq!(MtrcStdbReg::register_id(), 0x9042);
}

#[test]
fn mtrc_ctrl_reg_layout() {
    let reg = MtrcCtrlReg {
        trace_status: 3,
        arm_event: true,
        modify_field_select: 0xbeef,
        timestamp_hi: 1,
        timestamp_lo: 2,
    };
    let bytes = reg.to_bytes();
    assert_eq!(bytes, vec![0xc8, 0, 0xbe, 0xef, 0, 0, 0, 0, 0, 0, 0, 1, 0, 0, 0, 2]);
    assert_eq!(bytes.len(), reg.size());
    assert_eq!(MtrcCtrlReg::from_bytes(&bytes), Some(reg));
}

#[test]
fn mtrc_cap_reg_layout() {
    let mut reg = MtrcCapReg::default();
    reg.trace_owner = true;
    reg.trc_ver = 2;
    reg.num_string_db = 0xf;
    reg.first_string_trace = 5;
    reg.num_string_trace = 6;
    reg.log_max_trace_buffer_size = 7;
    reg.string_db_param[0] = StringDbParam { address: 0x1122_3344, size: 0x10 };
    reg.string_db_param[7] = StringDbParam { address: 0xffff_ffff, size: 0xffff_ffff };
    let bytes = reg.to_bytes();
    assert_eq!(bytes.len(), 80);
    assert_eq!(bytes.len(), reg.size());
    assert_eq!(&bytes[..12], &[0x82, 0, 0, 0x0f, 5, 6, 0, 0, 0, 0, 0, 7]);
    assert_eq!(&bytes[16..24], &[0x11, 0x22, 0x33, 0x44, 0, 0, 0, 0x10]);
    assert_eq!(&bytes[72..80], &[0xff; 8]);
    assert_eq!(MtrcCapReg::from_bytes(&bytes), Some(reg));
    assert_eq!(MtrcCapReg::register_id(), 0x9040);
}

#[test]
fn mfpa_layout() {
    let reg = MFPA {
        add_cap_32b: true,
        p: true,
        fs: 3,
        boot_address: 0x0102_0304,
        wip: true,
        bulk_32kb_erase_en: false,
        bulk_64kb_erase_en: true,
        sector_wrp_en: true,
        sub_sector_wrp_en: false,
        flash_num: 0xa,
        jedec_id: 0xff_ffff,
        block_size: 0x10,
        block_alignment: 0x20,
        sector_size: 0x3ff,
        capability_mask: 0xaabb_ccdd,
    };
    let bytes = reg.to_bytes();
    assert_eq!(bytes.len(), 0x20);
    assert_eq!(&bytes[..8], &[0x80, 0, 0x01, 0x30, 1, 2, 3, 4]);
    assert_eq!(&bytes[16..32], &[
        0xa0, 0x02, 0, 0x0a, 0, 0xff, 0xff, 0xff, 0x10, 0x20, 0x03, 0xff, 0xaa, 0xbb, 0xcc, 0xdd
    ]);
    assert_eq!(MFPA::from_bytes(&bytes), Some(reg));
    assert_eq!(MFPA::register_id(), 0x9010);
}

#[test]
fn mfba_layout() {
    let mut reg = MFBA::default();
    reg.fs = 1;
    reg.size = 0x1ff;
    reg.address = 0x8000_0000;
    reg.data[0] = 0xaa;
    let bytes = reg.to_bytes();
    assert_eq!(bytes.len(), reg.size());
    assert_eq!(&bytes[..12], &[0, 0, 0, 0x10, 0, 0, 0x01, 0xff, 0x80, 0, 0, 0]);
    assert_eq!(bytes[12], 0xaa);
    assert_eq!(MFBA::from_bytes(&bytes), Some(reg));
}

#[test]
fn dealloc_pd_and_uar_layout() {
    let pd = mlx5cmd_verified::commands::DeallocPD { pd: 0x12_3456 };
    let bytes = pd.to_bytes();
    assert_eq!(bytes.len(), pd.size());
    assert_eq!(&bytes[..2], &[0x08, 0x01]);
    assert_eq!(&bytes[16..], &[0, 0x12, 0x34, 0x56]);
    assert_eq!(mlx5cmd_verified::commands::DeallocPD::from_bytes(&bytes), Some(pd));
    let uar = mlx5cmd_verified::commands::DeallocUAR { uar: 0xff_ffff };
    let bytes = uar.to_bytes();
    assert_eq!(&bytes[..2], &[0x08, 0x03]);
    assert_eq!(&bytes[16..], &[0, 0xff, 0xff, 0xff]);
    assert_eq!(mlx5cmd_verified::commands::DeallocUAR::from_bytes(&bytes), Some(uar));
}
