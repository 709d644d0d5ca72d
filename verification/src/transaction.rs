//! Transactions: who pays whom how much.

use crate::json::{json_string, push_json_string, push_text};
use vstd::prelude::*;
use vstd::utf8::encode_utf8;

verus! {

/// One transfer. The amount is held as the JSON number literal that the wire
/// format carries for it; nothing about the parties or the amount is checked.
#[derive(Debug)]
pub struct Transaction {
    pub sender: String,
    pub recipient: String,
    pub amount: String,
}

/// The mathematical value of a [`Transaction`].
pub struct TransactionView {
    pub sender: Seq<char>,
    pub recipient: Seq<char>,
    pub amount: Seq<char>,
}

impl View for Transaction {
    type V = TransactionView;

    open spec fn view(&self) -> TransactionView {
        TransactionView { sender: self.sender@, recipient: self.recipient@, amount: self.amount@ }
    }
}

impl Clone for Transaction {
    fn clone(&self) -> (copy: Self)
        ensures
            copy == *self,
    {
        Transaction {
            sender: self.sender.clone(),
            recipient: self.recipient.clone(),
            amount: self.amount.clone(),
        }
    }
}

/// The views of a sequence of transactions, in the same order.
pub open spec fn transactions_view(ts: Seq<Transaction>) -> Seq<TransactionView> {
    ts.map_values(|t: Transaction| t@)
}

/// The canonical JSON object of one transaction: the fields `sender`,
/// `recipient` and `amount` in this order, without white space.
pub open spec fn transaction_json(t: TransactionView) -> Seq<u8> {
    encode_utf8("{\"sender\":"@) + json_string(t.sender) + encode_utf8(",\"recipient\":"@)
        + json_string(t.recipient) + encode_utf8(",\"amount\":"@) + encode_utf8(t.amount)
        + encode_utf8("}"@)
}

/// The canonical JSON of a sequence of transactions: their objects in order,
/// separated by commas. The enclosing brackets are not part of it.
pub open spec fn transactions_json(ts: Seq<TransactionView>) -> Seq<u8>
    decreases ts.len(),
{
    if ts.len() == 0 {
        Seq::empty()
    } else if ts.len() == 1 {
        transaction_json(ts[0])
    } else {
        transactions_json(ts.drop_last()) + encode_utf8(","@) + transaction_json(ts.last())
    }
}

impl Transaction {
    /// Creates a transaction from its three fields, as they are.
    pub fn new(sender: &str, recipient: &str, amount: &str) -> (t: Transaction)
        ensures
            t@ == (TransactionView { sender: sender@, recipient: recipient@, amount: amount@ }),
    {
        Transaction {
            sender: sender.to_owned(),
            recipient: recipient.to_owned(),
            amount: amount.to_owned(),
        }
    }

    /// Appends the canonical JSON object of this transaction to `out`.
    pub fn write_json(&self, out: &mut Vec<u8>)
        ensures
            final(out)@ == old(out)@ + transaction_json(self@),
    {
        push_text(out, "{\"sender\":");
        push_json_string(out, self.sender.as_str());
        push_text(out, ",\"recipient\":");
        push_json_string(out, self.recipient.as_str());
        push_text(out, ",\"amount\":");
        push_text(out, self.amount.as_str());
        push_text(out, "}");
        assert(out@ =~= old(out)@ + transaction_json(self@));
    }
}

/// Appends the canonical JSON of `ts`, comma-separated, to `out`.
pub fn write_transactions_json(ts: &Vec<Transaction>, out: &mut Vec<u8>)
    ensures
        final(out)@ == old(out)@ + transactions_json(transactions_view(ts@)),
{
    let mut i: usize = 0;
    while i < ts.len()
        invariant
            i <= ts.len(),
            out@ == old(out)@ + transactions_json(transactions_view(ts@.take(i as int))),
        decreases ts.len() - i,
    {
        let ghost before = out@;
        let ghost done = transactions_view(ts@.take(i as int));
        let ghost next = transactions_view(ts@.take(i + 1));
        assert(next.drop_last() =~= done);
        assert(next.last() == ts@[i as int]@);
        if i > 0 {
            push_text(out, ",");
        }
        ts[i].write_json(out);
        assert(out@ =~= old(out)@ + transactions_json(next));
        i += 1;
    }
    assert(ts@.take(i as int) =~= ts@);
}

} // verus!
