//! The lines that the commands print.
use vstd::prelude::*;
use vstd::string::*;
use crate::bytes::{Address, Word};
use crate::hex_text::{encode_prefixed, prefixed_hex};
use crate::text::decimal;
use crate::u256::U256;

verus! {

/// Names the owner of a note.
pub fn owner_line(owner: &Address) -> (line: String)
    ensures
        line@ == "owner: "@ + prefixed_hex(owner@),
{
    let mut line: String = "owner: ".to_string();
    line.append(encode_prefixed(owner).as_str());
    line
}

/// Tells the balance of a note.
pub fn balance_line(amount: &U256) -> (line: String)
    ensures
        line@ == "balance: "@ + decimal(amount@) + " wei"@,
{
    let mut line: String = "balance: ".to_string();
    line.append(amount.to_decimal().as_str());
    line.append(" wei");
    line
}

/// Tells the salt of a deposit.
pub fn salt_line(salt: &Word) -> (line: String)
    ensures
        line@ == "salt: "@ + prefixed_hex(salt@),
{
    let mut line: String = "salt: ".to_string();
    line.append(encode_prefixed(salt).as_str());
    line
}

/// Tells what is left of a note after a call that it paid for.
pub fn new_note_line(amount: &U256, salt: &Word) -> (line: String)
    ensures
        line@ == "new note: amount="@ + decimal(amount@) + ", salt="@ + prefixed_hex(salt@),
{
    let mut line: String = "new note: amount=".to_string();
    line.append(amount.to_decimal().as_str());
    line.append(", salt=");
    line.append(encode_prefixed(salt).as_str());
    line
}

/// Tells where the balance of a note went.
pub fn withdrew_line(amount: &U256, to: &Address) -> (line: String)
    ensures
        line@ == "withdrew "@ + decimal(amount@) + " wei to "@ + prefixed_hex(to@),
{
    let mut line: String = "withdrew ".to_string();
    line.append(amount.to_decimal().as_str());
    line.append(" wei to ");
    line.append(encode_prefixed(to).as_str());
    line
}

/// Tells the hash of the transaction sent for the command `label`.
pub fn sent_line(label: &str, hash: &Word) -> (line: String)
    ensures
        line@ == label@ + " sent: "@ + prefixed_hex(hash@),
{
    let mut line: String = label.to_string();
    line.append(" sent: ");
    line.append(encode_prefixed(hash).as_str());
    line
}

/// Tells how a transaction ended.
pub fn status_line(success: bool) -> (line: String)
    ensures
        line@ == "status: "@ + (if success {
            "success"@
        } else {
            "failed"@
        }),
{
    let mut line: String = "status: ".to_string();
    line.append(if success { "success" } else { "failed" });
    line
}

} // verus!
