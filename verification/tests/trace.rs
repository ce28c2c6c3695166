use gastank::bytes::Address;
use gastank::convert::parse_hex_bytes;
use gastank::trace::{
    budget, call_tree_lines, cost, declared_gas, frame_lines, frame_status, label, mode_name,
    selector, summary_lines, target, CallFrame, FrameInfo, FrameReceipt, Predeploys, Receipt,
};
use gastank::u256::U256;
use serde_json::Value;

fn recent_root() -> Address {
    let mut address = [0; 20];
    address[18] = 0x82;
    address[19] = 0x72;
    address
}

fn predeploys() -> Predeploys {
    Predeploys {
        recent_root: recent_root(),
        nonce_manager: [0x82; 20],
        root_tuple_bytes: 72,
    }
}

fn number(value: &Value) -> u64 {
    u64::from_str_radix(&value.as_str().unwrap()[2..], 16).unwrap()
}

fn text(value: &Value) -> Option<String> {
    value.as_str().map(str::to_string)
}

fn call(json: &Value) -> CallFrame {
    CallFrame {
        call_type: text(&json["type"]).unwrap(),
        to: json["to"]
            .as_str()
            .map(|to| parse_hex_bytes(to).unwrap().try_into().unwrap()),
        value: json.get("value").map(|value| U256::from_u64(number(value))),
        gas_used: number(&json["gasUsed"]),
        input: json["input"]
            .as_str()
            .map_or_else(Vec::new, |input| parse_hex_bytes(input).unwrap()),
        error: text(&json["error"]),
        revert_reason: text(&json["revertReason"]),
        calls: json["calls"]
            .as_array()
            .map_or_else(Vec::new, |calls| calls.iter().map(call).collect()),
    }
}

fn nested() -> CallFrame {
    let json = r#"{
            "type": "CALL",
            "from": "0x0bca60c0742354616c94e9da941cb5802dfe94cf",
            "to": "0x0bca60c0742354616c94e9da941cb5802dfe94cf",
            "value": "0x0",
            "gas": "0x7a120",
            "gasUsed": "0x5e931",
            "input": "0x987757dd00",
            "calls": [
                {
                    "type": "DELEGATECALL",
                    "from": "0x0bca60c0742354616c94e9da941cb5802dfe94cf",
                    "to": "0x31889023a70c8d2154e1a74be6601df6af05203b",
                    "gas": "0x1000",
                    "gasUsed": "0x64",
                    "input": "0x16525c7f"
                },
                {
                    "type": "CALL",
                    "from": "0x0bca60c0742354616c94e9da941cb5802dfe94cf",
                    "to": "0x0000000000000000000000000000000000008272",
                    "gas": "0x2000",
                    "gasUsed": "0x5654",
                    "input": "0xdead",
                    "error": "execution reverted",
                    "revertReason": "GasTank: bad proof"
                }
            ]
        }"#;
    call(&serde_json::from_str::<Value>(json).expect("callTracer decode"))
}

fn frame(mode: u64, to: Option<Address>, data: Vec<u8>) -> FrameInfo {
    FrameInfo { mode, to, gas_limit: 85_000, state_gas_limit: 97_920, data }
}

fn receipt() -> Receipt {
    Receipt {
        transaction_hash: [0xab; 32],
        block_number: 12,
        status: true,
        from: [0xcd; 20],
        payer: Some([0xef; 20]),
        gas_used: 21_000,
        effective_gas_price: 7,
    }
}

#[test]
fn decodes_a_nested_call_tracer_response() {
    let root = nested();
    assert_eq!(root.call_type, "CALL");
    assert_eq!(root.gas_used, 387_377);
    assert_eq!(selector(&root.input), "0x987757dd");
    assert_eq!(root.calls.len(), 2);

    let predeploy = &root.calls[1];
    assert_eq!(predeploy.to, Some(recent_root()));
    assert_eq!(label(&predeploy.to.unwrap(), &predeploys()), "RECENT_ROOT");
    assert_eq!(
        predeploy.revert_reason.as_deref(),
        Some("GasTank: bad proof")
    );
}

#[test]
fn ignores_fields_the_summary_does_not_print() {
    let json = r#"{
            "type": "CALL",
            "from": "0x0bca60c0742354616c94e9da941cb5802dfe94cf",
            "gas": "0x10",
            "gasUsed": "0x10",
            "input": "0x",
            "output": "0x01",
            "regularGasUsed": "0x20",
            "stateGasUsed": "0x30",
            "gasRefund": "0x0",
            "logs": [],
            "calls": []
        }"#;

    let root = call(&serde_json::from_str::<Value>(json).expect("callTracer decode"));
    assert_eq!(root.to, None);
    assert_eq!(selector(&root.input), "-");
    assert!(root.calls.is_empty());
}

#[test]
fn a_call_tree_is_indented_by_depth() {
    let lines = call_tree_lines(&Ok(nested()), &predeploys());
    assert_eq!(
        lines,
        vec![
            "",
            "call tree",
            "  CALL 0x0bca60..94cf 0x987757dd gas 387377",
            "    DELEGATECALL 0x318890..203b 0x16525c7f gas 100",
            "    CALL RECENT_ROOT - gas 22100  <- GasTank: bad proof",
        ]
    );
}

#[test]
fn a_call_shows_value_and_error() {
    let mut deep = nested();
    deep.value = Some(U256 { limbs: [0, 1, 0, 0] });
    deep.to = None;
    deep.error = Some("out of gas".to_string());
    deep.calls[0].calls = vec![nested()];
    let lines = call_tree_lines(&Ok(deep), &predeploys());
    assert_eq!(
        lines[2],
        "  CALL (create) 0x987757dd gas 387377 value 18446744073709551616  <- out of gas"
    );
    assert_eq!(lines[4], "      CALL 0x0bca60..94cf 0x987757dd gas 387377");
    assert_eq!(lines[5], "        DELEGATECALL 0x318890..203b 0x16525c7f gas 100");
    assert_eq!(lines.len(), 2 + 6);
}

#[test]
fn a_missing_call_tree_is_explained() {
    assert_eq!(
        call_tree_lines(&Err("method not found".to_string()), &predeploys()),
        vec![
            "",
            "call tree",
            "  unavailable: method not found",
            "  (needs an endpoint serving the `debug` namespace)",
        ]
    );
}

#[test]
fn modes_and_statuses_have_names() {
    assert_eq!(mode_name(0), "DEF");
    assert_eq!(mode_name(1), "VERIFY");
    assert_eq!(mode_name(2), "SENDER");
    assert_eq!(mode_name(3), "?");
    assert_eq!(mode_name(256), "?");
    assert_eq!(mode_name(u64::MAX), "?");
    assert_eq!(frame_status(0), "FAILED");
    assert_eq!(frame_status(1), "ok");
    assert_eq!(frame_status(2), "skipped");
    assert_eq!(frame_status(3), "?");
}

#[test]
fn addresses_are_abbreviated_or_named() {
    assert_eq!(label(&[0xab; 20], &predeploys()), "0xababab..abab");
    assert_eq!(label(&recent_root(), &predeploys()), "RECENT_ROOT");
    assert_eq!(label(&[0x82; 20], &predeploys()), "NONCE_MANAGER");
}

#[test]
fn a_selector_takes_four_bytes() {
    assert_eq!(selector(&[1, 2, 3, 4]), "0x01020304");
    assert_eq!(selector(&[1, 2, 3, 4, 5]), "0x01020304");
    assert_eq!(selector(&[1, 2, 3]), "-");
    assert_eq!(selector(&[]), "-");
}

#[test]
fn a_root_frame_shows_how_many_roots_it_carries() {
    let to = Some(recent_root());
    let shown = |frame: FrameInfo| target(&frame, &predeploys());
    assert_eq!(shown(frame(1, to, vec![1; 72])), "RECENT_ROOT 1 root(s)");
    assert_eq!(shown(frame(1, to, vec![1; 144])), "RECENT_ROOT 2 root(s)");
    assert_eq!(shown(frame(1, to, vec![1; 73])), "RECENT_ROOT 0x01010101");
    assert_eq!(shown(frame(1, to, vec![])), "RECENT_ROOT -");
    assert_eq!(shown(frame(1, None, vec![1; 72])), "(sender) 0x01010101");
    assert_eq!(shown(frame(2, Some([0xab; 20]), vec![])), "0xababab..abab -");
    let unsized_roots = Predeploys { root_tuple_bytes: 0, ..predeploys() };
    assert_eq!(target(&frame(1, to, vec![1; 72]), &unsized_roots), "RECENT_ROOT 0x01010101");
}

#[test]
fn budgets_and_costs_are_exact() {
    assert_eq!(budget(Some(21), 30), "21/30");
    assert_eq!(budget(None, 30), "?/30");
    assert_eq!(cost(21_000, 7), 147_000);
    assert_eq!(cost(0, u64::MAX), 0);
    assert_eq!(cost(u64::MAX, u64::MAX), 340_282_366_920_938_463_426_481_119_284_349_108_225);
}

#[test]
fn declared_gas_adds_both_dimensions() {
    assert_eq!(declared_gas(&[]), Some(0));
    let frames = [frame(1, None, vec![]), frame(2, None, vec![])];
    assert_eq!(declared_gas(&frames), Some(2 * 182_920));
    let mut most = frame(1, None, vec![]);
    most.gas_limit = u64::MAX;
    assert_eq!(declared_gas(&[most]), Some(u64::MAX));
    let mut more = frame(1, None, vec![]);
    more.gas_limit = u64::MAX;
    assert_eq!(declared_gas(&[more, frame(1, None, vec![])]), None);
}

#[test]
fn a_summary_tells_cost_and_gas() {
    let hash = "ab".repeat(32);
    let from = "cd".repeat(20);
    let payer = "ef".repeat(20);
    assert_eq!(
        summary_lines(&receipt(), &[frame(1, None, vec![])], "89").unwrap(),
        vec![
            format!("tx      0x{hash}"),
            "block   12  status success".to_string(),
            format!("sender  0x{from}"),
            format!("payer   0x{payer}"),
            "cost    147000 wei @ 7 wei/gas".to_string(),
            "gas     21000 used of 182920 declared by frames (89% slack)".to_string(),
        ]
    );
    let plain = Receipt { payer: None, status: false, ..receipt() };
    let lines = summary_lines(&plain, &[], "").unwrap();
    assert_eq!(lines.len(), 5);
    assert_eq!(lines[1], "block   12  status FAILED");
    assert_eq!(lines[4], "gas     21000 used");
    let mut most = frame(1, None, vec![]);
    most.gas_limit = u64::MAX;
    assert_eq!(summary_lines(&plain, &[most, frame(1, None, vec![])], ""), None);
}

#[test]
fn a_frame_table_has_a_row_per_frame() {
    let frames = [
        frame(1, Some(recent_root()), vec![1; 72]),
        frame(2, Some([0xab; 20]), vec![1, 2, 3, 4]),
    ];
    let receipts = [FrameReceipt { status: 1, gas_used: 5_000, state_gas_used: 0 }];
    let expected = vec![
        "".to_string(),
        "frames".to_string(),
        format!(
            "  {:<2} {:<6} {:<7} {:<26} {:>19} {:>19}",
            "#", "mode", "status", "target", "exec gas", "state gas"
        ),
        format!(
            "  {:<2} {:<6} {:<7} {:<26} {:>19} {:>19}",
            0, "VERIFY", "ok", "RECENT_ROOT 1 root(s)", "5000/85000", "0/97920"
        ),
        format!(
            "  {:<2} {:<6} {:<7} {:<26} {:>19} {:>19}",
            1, "SENDER", "-", "0xababab..abab 0x01020304", "?/85000", "?/97920"
        ),
    ];
    assert_eq!(frame_lines(&frames, &receipts, &predeploys()), expected);
    assert!(frame_lines(&[], &receipts, &predeploys()).is_empty());
}

#[test]
fn wide_columns_are_kept_whole() {
    let mut wide = frame(2, Some([0xab; 20]), vec![1, 2, 3, 4]);
    wide.gas_limit = u64::MAX;
    let receipts = [FrameReceipt { status: 0, gas_used: u64::MAX, state_gas_used: 1 }];
    let lines = frame_lines(&[wide], &receipts, &predeploys());
    assert_eq!(
        lines[3],
        format!(
            "  0  SENDER FAILED  0xababab..abab 0x01020304  {0}/{0}             1/97920",
            u64::MAX
        )
    );
}
