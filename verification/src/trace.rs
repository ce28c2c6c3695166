//! The summary of a transaction: its cost, its frames and its call tree.
use vstd::prelude::*;
use vstd::slice::slice_subrange;
use vstd::string::*;
use crate::bytes::{Address, same_bytes, Word};
use crate::frame::FrameMode;
use crate::hex_text::{encode_prefixed, prefixed_hex};
use crate::text::{
    append_left_aligned,
    append_right_aligned,
    decimal,
    decimal_text,
    left_aligned,
    lines_view,
    right_aligned,
    spaces,
};
use crate::u256::U256;

verus! {

/// The contracts that come with the network and have names of their own.
#[derive(Clone, Copy, Debug)]
pub struct Predeploys {
    /// The verifier of recent roots.
    pub recent_root: Address,
    /// The keeper of keyed nonces.
    pub nonce_manager: Address,
    /// The size of a packed recent-root reference.
    pub root_tuple_bytes: usize,
}

/// A frame of a transaction, as far as the summary shows it.
#[derive(Debug)]
pub struct FrameInfo {
    pub mode: u64,
    pub to: Option<Address>,
    pub gas_limit: u64,
    pub state_gas_limit: u64,
    pub data: Vec<u8>,
}

/// What became of a frame.
#[derive(Clone, Copy, Debug)]
pub struct FrameReceipt {
    pub status: u8,
    pub gas_used: u64,
    pub state_gas_used: u64,
}

/// What became of a transaction.
#[derive(Clone, Copy, Debug)]
pub struct Receipt {
    pub transaction_hash: Word,
    pub block_number: u64,
    pub status: bool,
    pub from: Address,
    pub payer: Option<Address>,
    pub gas_used: u64,
    pub effective_gas_price: u64,
}

/// A call and the calls made from it.
#[derive(Debug)]
pub struct CallFrame {
    pub call_type: String,
    /// The called account; none where the call creates one.
    pub to: Option<Address>,
    pub value: Option<U256>,
    pub gas_used: u64,
    pub input: Vec<u8>,
    pub error: Option<String>,
    pub revert_reason: Option<String>,
    pub calls: Vec<CallFrame>,
}

/// The name of a frame's mode.
pub open spec fn mode_text(mode: u64) -> Seq<char> {
    if mode == FrameMode::Default.code_spec() {
        "DEF"@
    } else if mode == FrameMode::Verify.code_spec() {
        "VERIFY"@
    } else if mode == FrameMode::Sender.code_spec() {
        "SENDER"@
    } else {
        "?"@
    }
}

/// The name of a frame's mode.
pub fn mode_name(mode: u64) -> (name: &'static str)
    ensures
        name@ == mode_text(mode),
{
    if mode > 255 {
        return "?";
    }
    match FrameMode::from_u8(mode as u8) {
        Some(FrameMode::Default) => "DEF",
        Some(FrameMode::Verify) => "VERIFY",
        Some(FrameMode::Sender) => "SENDER",
        None => "?",
    }
}

/// The name of a frame's status.
pub open spec fn status_text(status: u8) -> Seq<char> {
    if status == 0 {
        "FAILED"@
    } else if status == 1 {
        "ok"@
    } else if status == 2 {
        "skipped"@
    } else {
        "?"@
    }
}

/// The name of a frame's status: a frame fails, succeeds, or is skipped because
/// a frame of the same atomic batch failed.
pub fn frame_status(status: u8) -> (name: &'static str)
    ensures
        name@ == status_text(status),
{
    match status {
        0 => "FAILED",
        1 => "ok",
        2 => "skipped",
        _ => "?",
    }
}

/// An address as the summary shows it: by name, or by its ends.
pub open spec fn label_text(address: Seq<u8>, predeploys: Predeploys) -> Seq<char> {
    if address == predeploys.recent_root@ {
        "RECENT_ROOT"@
    } else if address == predeploys.nonce_manager@ {
        "NONCE_MANAGER"@
    } else {
        let hex = prefixed_hex(address);
        hex.take(8) + ".."@ + hex.skip(hex.len() - 4)
    }
}

/// Abbreviates an address, naming the predeploys that a frame transaction
/// routinely touches so they stand out from application contracts.
pub fn label(address: &Address, predeploys: &Predeploys) -> (text: String)
    ensures
        text@ == label_text(address@, *predeploys),
{
    if same_bytes(address, &predeploys.recent_root) {
        return "RECENT_ROOT".to_string();
    }
    if same_bytes(address, &predeploys.nonce_manager) {
        return "NONCE_MANAGER".to_string();
    }
    let hex: String = encode_prefixed(address);
    proof {
        reveal_strlit("0x");
    }
    let len: usize = hex.as_str().unicode_len();
    let mut text: String = hex.as_str().substring_char(0, 8).to_string();
    assert(text@ =~= hex@.take(8));
    text.append("..");
    let tail: &str = hex.as_str().substring_char(len - 4, len);
    assert(tail@ =~= hex@.skip(hex@.len() - 4));
    text.append(tail);
    text
}

/// The leading four bytes of `data`, or a dash where it has fewer.
pub open spec fn selector_text(data: Seq<u8>) -> Seq<char> {
    if data.len() >= 4 {
        prefixed_hex(data.take(4))
    } else {
        "-"@
    }
}

/// The leading 4-byte selector of `data`, or `-` when there is none. Frame data
/// is not always a call: the recent-root verifier frame carries packed tuples.
pub fn selector(data: &[u8]) -> (text: String)
    ensures
        text@ == selector_text(data@),
{
    if data.len() >= 4 {
        let head: &[u8] = slice_subrange(data, 0, 4);
        assert(head@ =~= data@.take(4));
        encode_prefixed(head)
    } else {
        "-".to_string()
    }
}

/// What a frame calls: the account, and how many roots it carries where it is a
/// recent-root verifier frame, or else the selector.
pub open spec fn target_text(frame: FrameInfo, predeploys: Predeploys) -> Seq<char> {
    let target = match frame.to {
        Some(to) => label_text(to@, predeploys),
        None => "(sender)"@,
    };
    let size = predeploys.root_tuple_bytes;
    if frame.to is Some && frame.to->0@ == predeploys.recent_root@ && frame.data@.len() > 0 && size
        > 0 && frame.data@.len() % (size as nat) == 0 {
        target + " "@ + decimal(frame.data@.len() / (size as nat)) + " root(s)"@
    } else {
        target + " "@ + selector_text(frame.data@)
    }
}

/// What a frame calls.
pub fn target(frame: &FrameInfo, predeploys: &Predeploys) -> (text: String)
    ensures
        text@ == target_text(*frame, *predeploys),
{
    let size: usize = predeploys.root_tuple_bytes;
    let mut text: String = match &frame.to {
        Some(to) => label(to, predeploys),
        None => "(sender)".to_string(),
    };
    let is_root_verifier: bool = match &frame.to {
        Some(to) => same_bytes(to, &predeploys.recent_root),
        None => false,
    };
    text.append(" ");
    if is_root_verifier && frame.data.len() > 0 && size > 0 && frame.data.len() % size == 0 {
        text.append(decimal_text((frame.data.len() / size) as u128).as_str());
        text.append(" root(s)");
    } else {
        text.append(selector(frame.data.as_slice()).as_str());
    }
    text
}

/// Gas used, where it is known, of the gas allowed.
pub open spec fn budget_text(used: Option<u64>, limit: u64) -> Seq<char> {
    match used {
        Some(used) => decimal(used as nat) + "/"@ + decimal(limit as nat),
        None => "?/"@ + decimal(limit as nat),
    }
}

/// Shows the gas used, where it is known, of the gas allowed.
pub fn budget(used: Option<u64>, limit: u64) -> (text: String)
    ensures
        text@ == budget_text(used, limit),
{
    match used {
        Some(used) => {
            let mut text: String = decimal_text(used as u128);
            text.append("/");
            text.append(decimal_text(limit as u128).as_str());
            text
        },
        None => {
            let mut text: String = "?/".to_string();
            text.append(decimal_text(limit as u128).as_str());
            text
        },
    }
}

/// The price of an amount of gas.
pub fn cost(gas: u64, price: u64) -> (total: u128)
    ensures
        total == gas * price,
{
    assert(gas * price <= 0xffff_ffff_ffff_ffff * 0xffff_ffff_ffff_ffff) by (nonlinear_arith)
        requires
            gas <= 0xffff_ffff_ffff_ffff,
            price <= 0xffff_ffff_ffff_ffff,
    ;
    gas as u128 * price as u128
}

/// The gas that a frame declares in both dimensions, as far as it can be counted.
pub open spec fn declared_by(frame: FrameInfo) -> nat {
    if frame.gas_limit + frame.state_gas_limit <= u64::MAX {
        (frame.gas_limit + frame.state_gas_limit) as nat
    } else {
        u64::MAX as nat
    }
}

/// The gas that the frames declare together.
pub open spec fn declared(frames: Seq<FrameInfo>) -> nat
    decreases frames.len(),
{
    if frames.len() == 0 {
        0
    } else {
        declared(frames.drop_last()) + declared_by(frames.last())
    }
}

proof fn lemma_declared_grows(frames: Seq<FrameInfo>, count: int)
    requires
        0 <= count <= frames.len(),
    ensures
        declared(frames.take(count)) <= declared(frames),
    decreases frames.len(),
{
    if count == frames.len() {
        assert(frames.take(count) =~= frames);
    } else {
        lemma_declared_grows(frames.drop_last(), count);
        assert(frames.drop_last().take(count) =~= frames.take(count));
    }
}

/// Adds up the gas that the frames declare, unless the sum is too large to
/// hold. What the frames declare is what the payer is quoted.
pub fn declared_gas(frames: &[FrameInfo]) -> (total: Option<u64>)
    ensures
        match total {
            Some(total) => total == declared(frames@),
            None => declared(frames@) > u64::MAX,
        },
{
    let mut total: u64 = 0;
    let mut i: usize = 0;
    while i < frames.len()
        invariant
            i <= frames@.len(),
            total == declared(frames@.take(i as int)),
        decreases frames@.len() - i,
    {
        let frame: &FrameInfo = &frames[i];
        let own: u64 = frame.gas_limit.saturating_add(frame.state_gas_limit);
        proof {
            assert(frames@.take(i + 1).drop_last() =~= frames@.take(i as int));
            lemma_declared_grows(frames@, i + 1);
        }
        match total.checked_add(own) {
            Some(sum) => {
                total = sum;
            },
            None => {
                return None;
            },
        }
        i = i + 1;
    }
    assert(frames@.take(i as int) =~= frames@);
    Some(total)
}

/// The line on the gas of a transaction. `slack` is the share of the declared
/// gas that was not used, in percent.
pub open spec fn gas_text(used: u64, declared: u64, slack: Seq<char>) -> Seq<char> {
    if declared == 0 {
        "gas     "@ + decimal(used as nat) + " used"@
    } else {
        "gas     "@ + decimal(used as nat) + " used of "@ + decimal(declared as nat)
            + " declared by frames ("@ + slack + "% slack)"@
    }
}

/// The head of a summary.
pub open spec fn summary_text(receipt: Receipt, declared: u64, slack: Seq<char>) -> Seq<
    Seq<char>,
> {
    let head = seq![
        "tx      "@ + prefixed_hex(receipt.transaction_hash@),
        "block   "@ + decimal(receipt.block_number as nat) + "  status "@ + if receipt.status {
            "success"@
        } else {
            "FAILED"@
        },
        "sender  "@ + prefixed_hex(receipt.from@),
    ];
    let payer = match receipt.payer {
        Some(payer) => seq!["payer   "@ + prefixed_hex(payer@)],
        None => Seq::empty(),
    };
    head + payer + seq![
        "cost    "@ + decimal((receipt.gas_used * receipt.effective_gas_price) as nat) + " wei @ "@
            + decimal(receipt.effective_gas_price as nat) + " wei/gas"@,
        gas_text(receipt.gas_used, declared, slack),
    ]
}

fn gas_line(used: u64, declared: u64, slack: &str) -> (line: String)
    ensures
        line@ == gas_text(used, declared, slack@),
{
    let mut line: String = "gas     ".to_string();
    line.append(decimal_text(used as u128).as_str());
    if declared == 0 {
        line.append(" used");
    } else {
        line.append(" used of ");
        line.append(decimal_text(declared as u128).as_str());
        line.append(" declared by frames (");
        line.append(slack);
        line.append("% slack)");
    }
    line
}

fn summary_of(receipt: &Receipt, declared: u64, slack: &str) -> (lines: Vec<String>)
    ensures
        lines_view(lines@) == summary_text(*receipt, declared, slack@),
{
    let mut lines: Vec<String> = Vec::new();

    let mut tx: String = "tx      ".to_string();
    tx.append(encode_prefixed(&receipt.transaction_hash).as_str());
    lines.push(tx);

    let mut block: String = "block   ".to_string();
    block.append(decimal_text(receipt.block_number as u128).as_str());
    block.append("  status ");
    block.append(if receipt.status { "success" } else { "FAILED" });
    lines.push(block);

    let mut sender: String = "sender  ".to_string();
    sender.append(encode_prefixed(&receipt.from).as_str());
    lines.push(sender);

    if let Some(payer) = &receipt.payer {
        let mut line: String = "payer   ".to_string();
        line.append(encode_prefixed(payer).as_str());
        lines.push(line);
    }
    let price: u64 = receipt.effective_gas_price;
    let mut paid: String = "cost    ".to_string();
    paid.append(decimal_text(cost(receipt.gas_used, price)).as_str());
    paid.append(" wei @ ");
    paid.append(decimal_text(price as u128).as_str());
    paid.append(" wei/gas");
    lines.push(paid);

    lines.push(gas_line(receipt.gas_used, declared, slack));
    assert(lines_view(lines@) =~= summary_text(*receipt, declared, slack@));
    lines
}

/// Writes the head of the summary of a transaction with these frames, unless the
/// gas that they declare is too much to count. `slack` is the share of it that
/// was not used, in percent.
pub fn summary_lines(receipt: &Receipt, frames: &[FrameInfo], slack: &str) -> (lines: Option<
    Vec<String>,
>)
    ensures
        match lines {
            Some(lines) => declared(frames@) <= u64::MAX && lines_view(lines@) == summary_text(
                *receipt,
                declared(frames@) as u64,
                slack@,
            ),
            None => declared(frames@) > u64::MAX,
        },
{
    match declared_gas(frames) {
        Some(declared) => Some(summary_of(receipt, declared, slack)),
        None => None,
    }
}

/// A row of the frame table.
pub open spec fn row_text(
    index: Seq<char>,
    mode: Seq<char>,
    status: Seq<char>,
    target: Seq<char>,
    gas: Seq<char>,
    state_gas: Seq<char>,
) -> Seq<char> {
    "  "@ + left_aligned(index, 2) + " "@ + left_aligned(mode, 6) + " "@ + left_aligned(status, 7)
        + " "@ + left_aligned(target, 26) + " "@ + right_aligned(gas, 19) + " "@ + right_aligned(
        state_gas,
        19,
    )
}

/// The row of the frame at `index`, whose receipt may be missing.
pub open spec fn frame_text(
    index: nat,
    frame: FrameInfo,
    receipt: Option<FrameReceipt>,
    predeploys: Predeploys,
) -> Seq<char> {
    row_text(
        decimal(index),
        mode_text(frame.mode),
        match receipt {
            Some(receipt) => status_text(receipt.status),
            None => "-"@,
        },
        target_text(frame, predeploys),
        budget_text(
            match receipt {
                Some(receipt) => Some(receipt.gas_used),
                None => None,
            },
            frame.gas_limit,
        ),
        budget_text(
            match receipt {
                Some(receipt) => Some(receipt.state_gas_used),
                None => None,
            },
            frame.state_gas_limit,
        ),
    )
}

/// The receipt at `index`, if there are so many.
pub open spec fn receipt_at(receipts: Seq<FrameReceipt>, index: int) -> Option<FrameReceipt> {
    if 0 <= index < receipts.len() {
        Some(receipts[index])
    } else {
        None
    }
}

/// The rows of the frame table.
pub open spec fn frame_rows(
    frames: Seq<FrameInfo>,
    receipts: Seq<FrameReceipt>,
    predeploys: Predeploys,
) -> Seq<Seq<char>> {
    Seq::new(
        frames.len(),
        |i: int| frame_text(i as nat, frames[i], receipt_at(receipts, i), predeploys),
    )
}

/// The frame table: nothing where there are no frames.
pub open spec fn frames_text(
    frames: Seq<FrameInfo>,
    receipts: Seq<FrameReceipt>,
    predeploys: Predeploys,
) -> Seq<Seq<char>> {
    if frames.len() == 0 {
        Seq::empty()
    } else {
        seq![
            ""@,
            "frames"@,
            row_text("#"@, "mode"@, "status"@, "target"@, "exec gas"@, "state gas"@),
        ] + frame_rows(frames, receipts, predeploys)
    }
}

fn row(index: &str, mode: &str, status: &str, target: &str, gas: &str, state_gas: &str) -> (line:
    String)
    ensures
        line@ == row_text(index@, mode@, status@, target@, gas@, state_gas@),
{
    let mut line: String = "  ".to_string();
    append_left_aligned(&mut line, index, 2);
    line.append(" ");
    append_left_aligned(&mut line, mode, 6);
    line.append(" ");
    append_left_aligned(&mut line, status, 7);
    line.append(" ");
    append_left_aligned(&mut line, target, 26);
    line.append(" ");
    append_right_aligned(&mut line, gas, 19);
    line.append(" ");
    append_right_aligned(&mut line, state_gas, 19);
    line
}

fn frame_line(
    index: usize,
    frame: &FrameInfo,
    receipt: Option<FrameReceipt>,
    predeploys: &Predeploys,
) -> (line: String)
    ensures
        line@ == frame_text(index as nat, *frame, receipt, *predeploys),
{
    let status: &'static str = match receipt {
        Some(receipt) => frame_status(receipt.status),
        None => "-",
    };
    let gas_used: Option<u64> = match receipt {
        Some(receipt) => Some(receipt.gas_used),
        None => None,
    };
    let state_gas_used: Option<u64> = match receipt {
        Some(receipt) => Some(receipt.state_gas_used),
        None => None,
    };
    row(
        decimal_text(index as u128).as_str(),
        mode_name(frame.mode),
        status,
        target(frame, predeploys).as_str(),
        budget(gas_used, frame.gas_limit).as_str(),
        budget(state_gas_used, frame.state_gas_limit).as_str(),
    )
}

/// Writes the frame table.
pub fn frame_lines(
    frames: &[FrameInfo],
    receipts: &[FrameReceipt],
    predeploys: &Predeploys,
) -> (lines: Vec<String>)
    ensures
        lines_view(lines@) == frames_text(frames@, receipts@, *predeploys),
{
    let mut lines: Vec<String> = Vec::new();
    if frames.len() == 0 {
        assert(lines_view(lines@) =~= frames_text(frames@, receipts@, *predeploys));
        return lines;
    }
    lines.push("".to_string());
    lines.push("frames".to_string());
    lines.push(row("#", "mode", "status", "target", "exec gas", "state gas"));
    let ghost head = lines_view(lines@);
    let ghost rows = frame_rows(frames@, receipts@, *predeploys);
    assert(head =~= frames_text(frames@, receipts@, *predeploys).take(3));
    assert(rows.take(0) =~= Seq::empty());
    assert(head + rows.take(0) =~= head);
    let mut i: usize = 0;
    while i < frames.len()
        invariant
            i <= frames@.len(),
            rows == frame_rows(frames@, receipts@, *predeploys),
            lines_view(lines@) == head + rows.take(i as int),
        decreases frames@.len() - i,
    {
        let receipt: Option<FrameReceipt> = if i < receipts.len() {
            Some(receipts[i])
        } else {
            None
        };
        let ghost before = lines@;
        lines.push(frame_line(i, &frames[i], receipt, predeploys));
        assert(lines_view(lines@) =~= lines_view(before).push(rows[i as int]));
        assert(rows.take(i + 1) =~= rows.take(i as int).push(rows[i as int]));
        i = i + 1;
        assert(lines_view(lines@) =~= head + rows.take(i as int));
    }
    assert(rows.take(i as int) =~= rows);
    assert(lines_view(lines@) =~= frames_text(frames@, receipts@, *predeploys));
    lines
}

/// The line of one call, `depth` levels below the outermost.
pub open spec fn call_text(call: CallFrame, depth: nat, predeploys: Predeploys) -> Seq<char> {
    let to = match call.to {
        Some(to) => label_text(to@, predeploys),
        None => "(create)"@,
    };
    let value = match call.value {
        Some(value) => if value@ != 0 {
            " value "@ + decimal(value@)
        } else {
            Seq::empty()
        },
        None => Seq::empty(),
    };
    let reason = match (call.revert_reason, call.error) {
        (Some(reason), _) => "  <- "@ + reason@,
        (None, Some(error)) => "  <- "@ + error@,
        (None, None) => Seq::empty(),
    };
    spaces(2 * (depth + 1)) + call.call_type@ + " "@ + to + " "@ + selector_text(call.input@)
        + " gas "@ + decimal(call.gas_used as nat) + value + reason
}

/// The lines of a call and, below it and one level deeper, of the calls made
/// from it.
pub open spec fn call_lines(call: CallFrame, depth: nat, predeploys: Predeploys) -> Seq<Seq<char>>
    decreases call,
{
    seq![call_text(call, depth, predeploys)] + calls_lines(call.calls@, depth + 1, predeploys)
}

/// The lines of several calls in order.
pub open spec fn calls_lines(calls: Seq<CallFrame>, depth: nat, predeploys: Predeploys) -> Seq<
    Seq<char>,
>
    decreases calls,
{
    if calls.len() == 0 {
        Seq::empty()
    } else {
        calls_lines(calls.drop_last(), depth, predeploys) + call_lines(
            calls.last(),
            depth,
            predeploys,
        )
    }
}

/// The call tree, or why there is none.
pub open spec fn call_tree_text(
    tree: Result<CallFrame, String>,
    predeploys: Predeploys,
) -> Seq<Seq<char>> {
    seq![""@, "call tree"@] + match tree {
        Ok(root) => call_lines(root, 0, predeploys),
        Err(error) => seq![
            "  unavailable: "@ + error@,
            "  (needs an endpoint serving the `debug` namespace)"@,
        ],
    }
}

fn call_line(
    call: &CallFrame,
    indent: &str,
    Ghost(depth): Ghost<nat>,
    predeploys: &Predeploys,
) -> (line: String)
    requires
        indent@ == spaces(2 * (depth + 1)),
    ensures
        line@ == call_text(*call, depth, *predeploys),
{
    let mut line: String = indent.to_string();
    line.append(call.call_type.as_str());
    line.append(" ");
    match &call.to {
        Some(to) => {
            line.append(label(to, predeploys).as_str());
        },
        None => {
            line.append("(create)");
        },
    }
    line.append(" ");
    line.append(selector(call.input.as_slice()).as_str());
    line.append(" gas ");
    line.append(decimal_text(call.gas_used as u128).as_str());
    let ghost head = line@;
    match &call.value {
        Some(value) => {
            if !value.is_zero() {
                line.append(" value ");
                line.append(value.to_decimal().as_str());
                assert(line@ =~= head + (" value "@ + decimal(value@)));
            } else {
                assert(line@ =~= head + Seq::empty());
            }
        },
        None => {
            assert(line@ =~= head + Seq::empty());
        },
    }
    let ghost valued = line@;
    match (&call.revert_reason, &call.error) {
        (Some(reason), _) => {
            line.append("  <- ");
            line.append(reason.as_str());
            assert(line@ =~= valued + ("  <- "@ + reason@));
        },
        (None, Some(error)) => {
            line.append("  <- ");
            line.append(error.as_str());
            assert(line@ =~= valued + ("  <- "@ + error@));
        },
        (None, None) => {
            assert(line@ =~= valued + Seq::empty());
        },
    }
    line
}

fn append_call(
    lines: &mut Vec<String>,
    call: &CallFrame,
    indent: &str,
    Ghost(depth): Ghost<nat>,
    predeploys: &Predeploys,
)
    requires
        indent@ == spaces(2 * (depth + 1)),
    ensures
        lines_view(final(lines)@) == lines_view(old(lines)@) + call_lines(
            *call,
            depth,
            *predeploys,
        ),
    decreases call,
{
    let ghost start = lines_view(lines@);
    lines.push(call_line(call, indent, Ghost(depth), predeploys));
    let mut deeper: String = indent.to_string();
    deeper.append("  ");
    proof {
        reveal_strlit("  ");
        assert(deeper@ =~= spaces(2 * (depth + 2)));
    }
    let ghost own = seq![call_text(*call, depth, *predeploys)];
    assert(lines_view(lines@) =~= start + own + calls_lines(
        call.calls@.take(0),
        depth + 1,
        *predeploys,
    ));
    let mut i: usize = 0;
    while i < call.calls.len()
        invariant
            i <= call.calls@.len(),
            deeper@ == spaces(2 * (depth + 2)),
            lines_view(lines@) == start + own + calls_lines(
                call.calls@.take(i as int),
                depth + 1,
                *predeploys,
            ),
        decreases call.calls@.len() - i,
    {
        let ghost done = call.calls@.take(i as int);
        assert(decreases_to!(call => call.calls@[i as int]));
        append_call(lines, &call.calls[i], deeper.as_str(), Ghost(depth + 1), predeploys);
        assert(call.calls@.take(i + 1).drop_last() =~= done);
        i = i + 1;
        assert(lines_view(lines@) =~= start + own + calls_lines(
            call.calls@.take(i as int),
            depth + 1,
            *predeploys,
        ));
    }
    assert(call.calls@.take(i as int) =~= call.calls@);
    assert(lines_view(lines@) =~= start + call_lines(*call, depth, *predeploys));
}

/// Writes the call tree, or why there is none.
pub fn call_tree_lines(tree: &Result<CallFrame, String>, predeploys: &Predeploys) -> (lines: Vec<
    String,
>)
    ensures
        lines_view(lines@) == call_tree_text(*tree, *predeploys),
{
    let mut lines: Vec<String> = Vec::new();
    lines.push("".to_string());
    lines.push("call tree".to_string());
    assert(lines_view(lines@) =~= seq![""@, "call tree"@]);
    match tree {
        Ok(root) => {
            proof {
                reveal_strlit("  ");
                assert("  "@ =~= spaces(2));
            }
            append_call(&mut lines, root, "  ", Ghost(0nat), predeploys);
        },
        Err(error) => {
            let mut reason: String = "  unavailable: ".to_string();
            reason.append(error.as_str());
            lines.push(reason);
            lines.push("  (needs an endpoint serving the `debug` namespace)".to_string());
            assert(lines_view(lines@) =~= call_tree_text(*tree, *predeploys));
        },
    }
    lines
}

/// How many calls a tree holds.
pub open spec fn call_count(call: CallFrame) -> nat
    decreases call,
{
    1 + calls_count(call.calls@)
}

/// How many calls several trees hold.
pub open spec fn calls_count(calls: Seq<CallFrame>) -> nat
    decreases calls,
{
    if calls.len() == 0 {
        0
    } else {
        calls_count(calls.drop_last()) + call_count(calls.last())
    }
}

/// The call tree shows every call in one line, and the outermost call first.
pub proof fn lemma_one_line_per_call(call: CallFrame, depth: nat, predeploys: Predeploys)
    ensures
        call_lines(call, depth, predeploys).len() == call_count(call),
        call_lines(call, depth, predeploys)[0] == call_text(call, depth, predeploys),
    decreases call,
{
    lemma_one_line_per_call_of(call.calls@, depth + 1, predeploys);
}

proof fn lemma_one_line_per_call_of(calls: Seq<CallFrame>, depth: nat, predeploys: Predeploys)
    ensures
        calls_lines(calls, depth, predeploys).len() == calls_count(calls),
    decreases calls,
{
    if calls.len() > 0 {
        lemma_one_line_per_call_of(calls.drop_last(), depth, predeploys);
        lemma_one_line_per_call(calls.last(), depth, predeploys);
    }
}

/// The frame table holds, below its three lines of head, one row for each frame
/// in order, whether or not the frame has a receipt.
pub proof fn lemma_one_row_per_frame(
    frames: Seq<FrameInfo>,
    receipts: Seq<FrameReceipt>,
    predeploys: Predeploys,
    index: nat,
)
    requires
        index < frames.len(),
    ensures
        frames_text(frames, receipts, predeploys).len() == frames.len() + 3,
        frames_text(frames, receipts, predeploys)[index + 3int] == frame_text(
            index,
            frames[index as int],
            receipt_at(receipts, index as int),
            predeploys,
        ),
{
}

} // verus!
