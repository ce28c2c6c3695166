//! What the summary of a transaction shows.
use vstd::prelude::*;
use vstd::string::*;
use crate::bytes::Address;
use crate::hex_text::prefixed_hex;
use crate::text::{decimal, left_aligned, lines_view, right_aligned, spaces};
use crate::text_laws::{
    is_hex_digit_of,
    lemma_hex_spells_every_byte,
    lemma_lines_by_content,
    spells,
};
use crate::trace::{
    budget,
    call_lines,
    call_text,
    call_tree_lines,
    call_tree_text,
    CallFrame,
    calls_lines,
    cost,
    declared,
    declared_gas,
    frame_lines,
    frame_rows,
    frame_status,
    FrameInfo,
    FrameReceipt,
    frames_text,
    label,
    mode_name,
    Predeploys,
    Receipt,
    selector,
    summary_lines,
    summary_text,
    target,
};

verus! {

/// Modes zero to two have names; no other number has.
pub proof fn lemma_modes_are_named(mode: u64, name: &'static str)
    requires
        call_ensures(mode_name, (mode,), name),
    ensures
        mode == 0 ==> name@ == "DEF"@,
        mode == 1 ==> name@ == "VERIFY"@,
        mode == 2 ==> name@ == "SENDER"@,
        mode > 2 ==> name@ == "?"@,
{
}

/// Statuses zero to two have names; no other number has.
pub proof fn lemma_statuses_are_named(status: u8, name: &'static str)
    requires
        call_ensures(frame_status, (status,), name),
    ensures
        status == 0 ==> name@ == "FAILED"@,
        status == 1 ==> name@ == "ok"@,
        status == 2 ==> name@ == "skipped"@,
        status > 2 ==> name@ == "?"@,
{
}

/// The cost of gas is its amount times its price.
pub proof fn lemma_cost_is_the_product(gas: u64, price: u64, total: u128)
    requires
        call_ensures(cost, (gas, price), total),
    ensures
        total == gas * price,
{
}

/// The two predeploys go by their names, and every other address by its first
/// three bytes and its last two.
pub proof fn lemma_label_shows_both_ends(address: &Address, predeploys: &Predeploys, text: String)
    requires
        call_ensures(label, (address, predeploys), text),
    ensures
        address@ == predeploys.recent_root@ ==> text@ == "RECENT_ROOT"@,
        address@ != predeploys.recent_root@ && address@ == predeploys.nonce_manager@ ==> text@
            == "NONCE_MANAGER"@,
        address@ != predeploys.recent_root@ && address@ != predeploys.nonce_manager@ ==> {
            &&& text@.len() == 14
            &&& text@[0] == '0' && text@[1] == 'x'
            &&& spells(text@.take(8), 2, address@.take(3))
            &&& text@[8] == '.' && text@[9] == '.'
            &&& spells(text@.skip(10), 0, address@.skip(18))
        },
{
    if address@ != predeploys.recent_root@ && address@ != predeploys.nonce_manager@ {
        let hex = prefixed_hex(address@);
        lemma_hex_spells_every_byte(address@);
        reveal_strlit("..");
        assert(hex.len() == 42);
        assert(text@ == hex.take(8) + ".."@ + hex.skip(38));
        let head = address@.take(3);
        assert forall|i: int| #![trigger head[i]] 0 <= i < head.len() implies is_hex_digit_of(
            text@.take(8)[2 + 2 * i],
            head[i] as int / 16,
        ) && is_hex_digit_of(text@.take(8)[2 + 2 * i + 1], head[i] as int % 16) by {
            assert(head[i] == address@[i]);
            assert(text@.take(8)[2 + 2 * i] == hex[2 + 2 * i]);
            assert(text@.take(8)[2 + 2 * i + 1] == hex[2 + 2 * i + 1]);
        }
        let tail = address@.skip(18);
        assert forall|i: int| #![trigger tail[i]] 0 <= i < tail.len() implies is_hex_digit_of(
            text@.skip(10)[0 + 2 * i],
            tail[i] as int / 16,
        ) && is_hex_digit_of(text@.skip(10)[0 + 2 * i + 1], tail[i] as int % 16) by {
            assert(tail[i] == address@[i + 18]);
            assert(text@.skip(10)[0 + 2 * i] == hex[2 + 2 * (i + 18)]);
            assert(text@.skip(10)[0 + 2 * i + 1] == hex[2 + 2 * (i + 18) + 1]);
        }
    }
}

/// A selector is the first four bytes, where there are so many.
pub proof fn lemma_selector_is_four_bytes(data: &[u8], text: String)
    requires
        call_ensures(selector, (data,), text),
    ensures
        data@.len() < 4 ==> text@ == "-"@,
        data@.len() >= 4 ==> text@[0] == '0' && text@[1] == 'x' && spells(
            text@,
            2,
            data@.take(4),
        ),
{
    if data@.len() >= 4 {
        lemma_hex_spells_every_byte(data@.take(4));
    }
}

/// A frame shows whom it calls and the selector of its data; a frame to the
/// verifier of recent roots whose data are `count` whole tuples shows the count
/// in place of the selector.
pub proof fn lemma_target_shows_the_call(
    frame: &FrameInfo,
    predeploys: &Predeploys,
    to: &Address,
    data: &[u8],
    name: String,
    picked: String,
    count: nat,
    text: String,
)
    requires
        call_ensures(target, (frame, predeploys), text),
        frame.to is Some,
        frame.to->0@ == to@,
        data@ == frame.data@,
        call_ensures(label, (to, predeploys), name),
        call_ensures(selector, (data,), picked),
    ensures
        to@ == predeploys.recent_root@ && count > 0 && predeploys.root_tuple_bytes > 0
            && frame.data@.len() == count * predeploys.root_tuple_bytes ==> text@ == name@ + " "@
            + decimal(count) + " root(s)"@,
        to@ != predeploys.recent_root@ || frame.data@.len() == 0 || predeploys.root_tuple_bytes
            == 0 || frame.data@.len() % (predeploys.root_tuple_bytes as nat) != 0 ==> text@
            == name@ + " "@ + picked@,
{
    let size = predeploys.root_tuple_bytes as nat;
    if count > 0 && size > 0 && frame.data@.len() == count * size {
        assert(frame.data@.len() % size == 0 && frame.data@.len() / size == count
            && frame.data@.len() > 0) by (nonlinear_arith)
            requires
                frame.data@.len() == count * size,
                count > 0,
                size > 0,
        ;
    }
}

/// A frame that names no account shows that it calls the sender.
pub proof fn lemma_target_may_be_the_sender(
    frame: &FrameInfo,
    predeploys: &Predeploys,
    data: &[u8],
    picked: String,
    text: String,
)
    requires
        call_ensures(target, (frame, predeploys), text),
        frame.to is None,
        data@ == frame.data@,
        call_ensures(selector, (data,), picked),
    ensures
        text@ == "(sender)"@ + " "@ + picked@,
{
}

/// A budget shows the gas used, or that it is not known, and the gas allowed.
pub proof fn lemma_budget_shows_both(used: Option<u64>, limit: u64, text: String)
    requires
        call_ensures(budget, (used, limit), text),
    ensures
        used is Some ==> text@ == decimal(used->0 as nat) + "/"@ + decimal(limit as nat),
        used is None ==> text@ == "?/"@ + decimal(limit as nat),
{
}

/// Declared gas adds up frame by frame.
pub proof fn lemma_declared_adds_up(frames: Seq<FrameInfo>, more: Seq<FrameInfo>)
    ensures
        declared(frames + more) == declared(frames) + declared(more),
    decreases more.len(),
{
    if more.len() == 0 {
        assert(frames + more =~= frames);
    } else {
        lemma_declared_adds_up(frames, more.drop_last());
        assert((frames + more).drop_last() =~= frames + more.drop_last());
        assert((frames + more).last() == more.last());
    }
}

/// No frames declare no gas, and one frame declares its limits in both
/// dimensions together, as far as 64 bits can count.
pub proof fn lemma_frame_declares_both_limits(frames: &[FrameInfo], total: Option<u64>)
    requires
        call_ensures(declared_gas, (frames,), total),
        frames@.len() <= 1,
    ensures
        total is Some,
        frames@.len() == 0 ==> total->0 == 0,
        frames@.len() == 1 ==> ({
            let sum = frames@[0].gas_limit + frames@[0].state_gas_limit;
            total->0 == if sum <= u64::MAX {
                sum
            } else {
                u64::MAX as int
            }
        }),
{
    if frames@.len() == 1 {
        assert(frames@.drop_last() =~= Seq::empty());
        assert(declared(frames@.drop_last()) == 0);
    } else {
        assert(declared(frames@) == 0);
    }
}

/// The gas that two lists of frames declare together is the sum of what each
/// declares, and too much to count exactly where that sum is.
pub proof fn lemma_declared_gas_adds_up(
    frames: &[FrameInfo],
    more: &[FrameInfo],
    all: &[FrameInfo],
    first: Option<u64>,
    second: Option<u64>,
    total: Option<u64>,
)
    requires
        all@ == frames@ + more@,
        call_ensures(declared_gas, (frames,), first),
        call_ensures(declared_gas, (more,), second),
        call_ensures(declared_gas, (all,), total),
    ensures
        first is None || second is None ==> total is None,
        first is Some && second is Some ==> (total is Some <==> first->0 + second->0 <= u64::MAX),
        total is Some ==> total->0 == first->0 + second->0,
{
    lemma_declared_adds_up(frames@, more@);
}

/// The head of a summary names the transaction, its block and outcome, its
/// sender, its payer where there is one, its exact cost, and its gas beside what
/// the frames declare.
pub proof fn lemma_summary_names_the_transaction(
    receipt: &Receipt,
    frames: &[FrameInfo],
    slack: &str,
    total: Option<u64>,
    lines: Option<Vec<String>>,
)
    requires
        call_ensures(declared_gas, (frames,), total),
        call_ensures(summary_lines, (receipt, frames, slack), lines),
    ensures
        lines is Some == total is Some,
        lines is Some ==> ({
            let lines = lines->0@;
            let used = decimal(receipt.gas_used as nat);
            let after: int = if receipt.payer is Some {
                4
            } else {
                3
            };
            &&& lines.len() == after + 2
            &&& lines[0]@ == "tx      "@ + prefixed_hex(receipt.transaction_hash@)
            &&& receipt.status ==> lines[1]@ == "block   "@ + decimal(receipt.block_number as nat)
                + "  status "@ + "success"@
            &&& !receipt.status ==> lines[1]@ == "block   "@ + decimal(
                receipt.block_number as nat,
            ) + "  status "@ + "FAILED"@
            &&& lines[2]@ == "sender  "@ + prefixed_hex(receipt.from@)
            &&& receipt.payer is Some ==> lines[3]@ == "payer   "@ + prefixed_hex(
                receipt.payer->0@,
            )
            &&& lines[after]@ == "cost    "@ + decimal(
                (receipt.gas_used * receipt.effective_gas_price) as nat,
            ) + " wei @ "@ + decimal(receipt.effective_gas_price as nat) + " wei/gas"@
            &&& total->0 == 0 ==> lines[after + 1]@ == "gas     "@ + used + " used"@
            &&& total->0 > 0 ==> lines[after + 1]@ == "gas     "@ + used + " used of "@ + decimal(
                total->0 as nat,
            ) + " declared by frames ("@ + slack@ + "% slack)"@
        }),
{
    if lines is Some {
        let shown = lines->0@;
        lemma_lines_by_content(shown);
        let content = lines_view(shown);
        assert(content == summary_text(*receipt, total->0, slack@));
        assert(content[0] == shown[0]@);
        assert(content[1] == shown[1]@);
        assert(content[2] == shown[2]@);
        assert(content[3] == shown[3]@);
        assert(content[4] == shown[4]@);
        if receipt.payer is Some {
            assert(content[5] == shown[5]@);
        }
    }
}

/// A frame table is empty where there are no frames, and otherwise holds three
/// lines of head and a row for every frame.
pub proof fn lemma_table_has_a_head(
    frames: &[FrameInfo],
    receipts: &[FrameReceipt],
    predeploys: &Predeploys,
    lines: Vec<String>,
)
    requires
        call_ensures(frame_lines, (frames, receipts, predeploys), lines),
    ensures
        frames@.len() == 0 ==> lines@.len() == 0,
        frames@.len() > 0 ==> {
            &&& lines@.len() == frames@.len() + 3
            &&& lines@[0]@ == ""@
            &&& lines@[1]@ == "frames"@
            &&& lines@[2]@ == "  "@ + left_aligned("#"@, 2) + " "@ + left_aligned("mode"@, 6)
                + " "@ + left_aligned("status"@, 7) + " "@ + left_aligned("target"@, 26) + " "@
                + right_aligned("exec gas"@, 19) + " "@ + right_aligned("state gas"@, 19)
        },
{
    lemma_lines_by_content(lines@);
    let content = lines_view(lines@);
    assert(content == frames_text(frames@, receipts@, *predeploys));
    assert(content.len() == lines@.len());
    if frames@.len() > 0 {
        assert(content[0] == lines@[0]@);
        assert(content[1] == lines@[1]@);
        assert(content[2] == lines@[2]@);
    }
}

/// The row of a frame shows its position, its mode and whom it calls, and beside
/// its limits what its own receipt says, where there is one.
pub proof fn lemma_row_shows_its_frame(
    frames: &[FrameInfo],
    receipts: &[FrameReceipt],
    predeploys: &Predeploys,
    lines: Vec<String>,
    index: nat,
    mode: &'static str,
    status: &'static str,
    called: String,
    gas: String,
    state_gas: String,
)
    requires
        call_ensures(frame_lines, (frames, receipts, predeploys), lines),
        index < frames@.len(),
        call_ensures(mode_name, (frames@[index as int].mode,), mode),
        call_ensures(target, (&frames@[index as int], predeploys), called),
        index < receipts@.len() ==> {
            let receipt = receipts@[index as int];
            &&& call_ensures(frame_status, (receipt.status,), status)
            &&& call_ensures(
                budget,
                (Some(receipt.gas_used), frames@[index as int].gas_limit),
                gas,
            )
            &&& call_ensures(
                budget,
                (Some(receipt.state_gas_used), frames@[index as int].state_gas_limit),
                state_gas,
            )
        },
        index >= receipts@.len() ==> {
            &&& status@ == "-"@
            &&& call_ensures(budget, (None, frames@[index as int].gas_limit), gas)
            &&& call_ensures(budget, (None, frames@[index as int].state_gas_limit), state_gas)
        },
    ensures
        lines@[index + 3int]@ == "  "@ + left_aligned(decimal(index), 2) + " "@ + left_aligned(
            mode@,
            6,
        ) + " "@ + left_aligned(status@, 7) + " "@ + left_aligned(called@, 26) + " "@
            + right_aligned(gas@, 19) + " "@ + right_aligned(state_gas@, 19),
{
    lemma_lines_by_content(lines@);
    let content = lines_view(lines@);
    assert(content == frames_text(frames@, receipts@, *predeploys));
    assert(content.len() == lines@.len());
    assert(content[index + 3int] == lines@[index + 3int]@);
    assert(content[index + 3int] == frame_rows(frames@, receipts@, *predeploys)[index as int]);
}

/// A call tree shows the outermost call first, two spaces in: how it was made,
/// whom it calls or that it creates, its selector and gas, its value where that
/// is not zero, and why it failed where that is known, by the reason of the
/// revert rather than by the error.
pub proof fn lemma_tree_shows_the_outermost_call(
    tree: &Result<CallFrame, String>,
    predeploys: &Predeploys,
    lines: Vec<String>,
    to: &Address,
    input: &[u8],
    name: String,
    picked: String,
)
    requires
        call_ensures(call_tree_lines, (tree, predeploys), lines),
        tree is Ok,
        tree->Ok_0.to is Some ==> tree->Ok_0.to->0@ == to@ && call_ensures(
            label,
            (to, predeploys),
            name,
        ),
        tree->Ok_0.to is None ==> name@ == "(create)"@,
        input@ == tree->Ok_0.input@,
        call_ensures(selector, (input,), picked),
    ensures
        lines@.len() >= 3,
        lines@[0]@ == ""@,
        lines@[1]@ == "call tree"@,
        ({
            let root = tree->Ok_0;
            let value = if root.value is Some && root.value->0@ != 0 {
                " value "@ + decimal(root.value->0@)
            } else {
                Seq::empty()
            };
            let reason = if root.revert_reason is Some {
                "  <- "@ + root.revert_reason->0@
            } else if root.error is Some {
                "  <- "@ + root.error->0@
            } else {
                Seq::empty()
            };
            lines@[2]@ == seq![' ', ' '] + root.call_type@ + " "@ + name@ + " "@ + picked@
                + " gas "@ + decimal(root.gas_used as nat) + value + reason
        }),
{
    let root = tree->Ok_0;
    lemma_lines_by_content(lines@);
    let content = lines_view(lines@);
    assert(content == call_tree_text(*tree, *predeploys));
    assert(content.len() == lines@.len());
    assert(content[0] == lines@[0]@);
    assert(content[1] == lines@[1]@);
    assert(content[2] == lines@[2]@);
    assert(content[2] == call_lines(root, 0, *predeploys)[0]);
    assert(call_lines(root, 0, *predeploys)[0] == call_text(root, 0, *predeploys));
    assert(spaces(2) =~= seq![' ', ' ']);
}

/// Below the outermost call a tree shows the calls made from it, and nothing
/// else: what each shows on its own, two spaces further in, in order.
pub proof fn lemma_tree_shows_the_calls_below(
    tree: &Result<CallFrame, String>,
    predeploys: &Predeploys,
    lines: Vec<String>,
)
    requires
        call_ensures(call_tree_lines, (tree, predeploys), lines),
        tree is Ok,
    ensures
        lines_view(lines@).skip(3) == indented_trees(tree->Ok_0.calls@, *predeploys),
{
    let root = tree->Ok_0;
    let content = lines_view(lines@);
    assert(content.skip(3) =~= calls_lines(root.calls@, 1, *predeploys));
    lemma_calls_are_indented(root.calls@, 0, *predeploys);
    lemma_trees_one_by_one(root.calls@, *predeploys);
}

/// Every line two spaces further in.
pub open spec fn indented(lines: Seq<Seq<char>>) -> Seq<Seq<char>> {
    Seq::new(lines.len(), |i: int| seq![' ', ' '] + lines[i])
}

/// What the calls show on their own, one after the other, two spaces further in.
pub open spec fn indented_trees(calls: Seq<CallFrame>, predeploys: Predeploys) -> Seq<Seq<char>>
    decreases calls.len(),
{
    if calls.len() == 0 {
        Seq::empty()
    } else {
        indented_trees(calls.drop_last(), predeploys) + indented(
            call_tree_text(Ok(calls.last()), predeploys).skip(2),
        )
    }
}

proof fn lemma_trees_one_by_one(calls: Seq<CallFrame>, predeploys: Predeploys)
    ensures
        indented(calls_lines(calls, 0, predeploys)) == indented_trees(calls, predeploys),
    decreases calls.len(),
{
    if calls.len() == 0 {
        assert(indented(calls_lines(calls, 0, predeploys)) =~= Seq::empty());
    } else {
        lemma_trees_one_by_one(calls.drop_last(), predeploys);
        let own = call_tree_text(Ok(calls.last()), predeploys).skip(2);
        assert(own =~= call_lines(calls.last(), 0, predeploys));
        assert(indented(calls_lines(calls, 0, predeploys)) =~= indented(
            calls_lines(calls.drop_last(), 0, predeploys),
        ) + indented(own));
    }
}

/// A call one level deeper shows the same lines, two spaces further in.
pub proof fn lemma_deeper_calls_are_indented(call: CallFrame, depth: nat, predeploys: Predeploys)
    ensures
        call_lines(call, depth + 1, predeploys) == indented(call_lines(call, depth, predeploys)),
    decreases call,
{
    lemma_calls_are_indented(call.calls@, depth + 1, predeploys);
    assert(spaces(2 * (depth + 2)) =~= seq![' ', ' '] + spaces(2 * (depth + 1)));
    assert(call_text(call, depth + 1, predeploys) =~= seq![' ', ' '] + call_text(
        call,
        depth,
        predeploys,
    ));
    assert(call_lines(call, depth + 1, predeploys) =~= indented(
        call_lines(call, depth, predeploys),
    ));
}

proof fn lemma_calls_are_indented(calls: Seq<CallFrame>, depth: nat, predeploys: Predeploys)
    ensures
        calls_lines(calls, depth + 1, predeploys) == indented(
            calls_lines(calls, depth, predeploys),
        ),
    decreases calls,
{
    if calls.len() > 0 {
        lemma_calls_are_indented(calls.drop_last(), depth, predeploys);
        lemma_deeper_calls_are_indented(calls.last(), depth, predeploys);
    }
    assert(calls_lines(calls, depth + 1, predeploys) =~= indented(
        calls_lines(calls, depth, predeploys),
    ));
}

/// A tree that could not be had is explained.
pub proof fn lemma_missing_tree_is_explained(
    tree: &Result<CallFrame, String>,
    predeploys: &Predeploys,
    lines: Vec<String>,
)
    requires
        call_ensures(call_tree_lines, (tree, predeploys), lines),
        tree is Err,
    ensures
        lines@.len() == 4,
        lines@[0]@ == ""@,
        lines@[1]@ == "call tree"@,
        lines@[2]@ == "  unavailable: "@ + tree->Err_0@,
        lines@[3]@ == "  (needs an endpoint serving the `debug` namespace)"@,
{
    lemma_lines_by_content(lines@);
    let content = lines_view(lines@);
    assert(content.len() == lines@.len());
    assert(content[0] == lines@[0]@);
    assert(content[1] == lines@[1]@);
    assert(content[2] == lines@[2]@);
    assert(content[3] == lines@[3]@);
}

} // verus!
