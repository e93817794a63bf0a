use crate::common::amount::amount_text;
use crate::common::text::{nat_text, nat_to_string};
use crate::models::client::AccountState;
use crate::models::client_snapshot::ClientSnapshot;
use vstd::prelude::*;
use vstd::string::*;

verus! {

/// The texts that a row of strings holds.
pub open spec fn row_texts(row: Seq<String>) -> Seq<Seq<char>> {
    Seq::new(row.len(), |i: int| row[i]@)
}

/// The first row of the output: the names of the columns.
pub open spec fn header_row() -> Seq<Seq<char>> {
    seq!["client"@, "available"@, "held"@, "total"@, "locked"@]
}

/// How a flag is written.
pub open spec fn bool_text(b: bool) -> Seq<char> {
    if b {
        "true"@
    } else {
        "false"@
    }
}

/// The output row of an account: its client, what is available, what is
/// held, the total of the two, and whether it is locked.
pub open spec fn account_row(account: AccountState) -> Seq<Seq<char>> {
    seq![
        nat_text(account.client as nat),
        amount_text(account.available),
        amount_text(account.held),
        amount_text(account.total()),
        bool_text(account.locked),
    ]
}

/// Whether `rows` is the output for `accounts`: the header, then one row for
/// each account, in their order.
pub open spec fn is_output_of(rows: Seq<Vec<String>>, accounts: Seq<AccountState>) -> bool {
    &&& rows.len() == accounts.len() + 1
    &&& row_texts(rows[0]@) == header_row()
    &&& forall|i: int|
        0 <= i < accounts.len() ==> row_texts(#[trigger] rows[i + 1]@) == account_row(accounts[i])
}

/// Lays accounts out as rows of text, ready to be written as CSV.
pub struct CsvOutputManager {}

impl CsvOutputManager {
    pub fn new() -> Self {
        CsvOutputManager {  }
    }

    /// The names of the columns.
    pub fn header(&self) -> (row: Vec<String>)
        ensures
            row_texts(row@) == header_row(),
    {
        let mut row: Vec<String> = Vec::new();
        row.push(String::from_str("client"));
        row.push(String::from_str("available"));
        row.push(String::from_str("held"));
        row.push(String::from_str("total"));
        row.push(String::from_str("locked"));
        assert(row_texts(row@) =~= header_row());
        row
    }

    /// The row of one account.
    pub fn record(&self, client: &ClientSnapshot) -> (row: Vec<String>)
        ensures
            row_texts(row@) == account_row(client@),
    {
        let client_id = nat_to_string(client.get_id() as u128);
        let available = client.get_available().to_string();
        let held = client.get_held().to_string();
        let total = client.get_total().to_string();
        let locked = if client.get_locked() {
            String::from_str("true")
        } else {
            String::from_str("false")
        };
        let mut row: Vec<String> = Vec::new();
        row.push(client_id);
        row.push(available);
        row.push(held);
        row.push(total);
        row.push(locked);
        assert(row_texts(row@) =~= account_row(client@));
        row
    }

    /// The whole output: the header and one row for each account.
    pub fn output_rows(&self, clients: &[ClientSnapshot]) -> (rows: Vec<Vec<String>>)
        ensures
            is_output_of(rows@, clients@.map_values(|c: ClientSnapshot| c@)),
    {
        let mut rows: Vec<Vec<String>> = Vec::new();
        rows.push(self.header());
        let mut i: usize = 0;
        while i < clients.len()
            invariant
                i <= clients@.len(),
                rows@.len() == i + 1,
                row_texts(rows@[0]@) == header_row(),
                forall|j: int|
                    0 <= j < i ==> row_texts(#[trigger] rows@[j + 1]@) == account_row(clients@[j]@),
            decreases clients@.len() - i,
        {
            rows.push(self.record(&clients[i]));
            i += 1;
        }
        rows
    }
}

} // verus!
