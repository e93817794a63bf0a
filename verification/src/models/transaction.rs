use crate::common::amount::{decimal_from_str, parsed_decimal, units_of, Amount};
use crate::common::text::{parse_u16, parse_u32, parse_unsigned, same_text, trim, trimmed};
use crate::common::types::{ClientId, TransactionId, TransactionType};
use vstd::prelude::*;
use vstd::string::*;

verus! {

/// Why a row of input is no transaction.
#[derive(Debug, PartialEq, Eq, Clone, Copy, Structural)]
pub enum ParseError {
    /// The row does not have exactly four columns.
    InvalidColumnCount,
    /// The first column names none of the five kinds.
    InvalidKind,
    /// The second column is no client id.
    InvalidClientId,
    /// The third column is no transaction id.
    InvalidTransactionId,
    /// The fourth column of a deposit or withdrawal is no decimal amount.
    InvalidAmount,
    /// The fourth column of a dispute, resolution or chargeback is not empty.
    UnexpectedAmount,
}

/// The error of reading a row of input as a transaction.
#[derive(Debug, PartialEq, Eq, Clone, Copy, Structural)]
pub struct TxError(pub ParseError);

impl TxError {
    /// What is wrong with the row, in words.
    pub open spec fn message(self) -> Seq<char> {
        match self.0 {
            ParseError::InvalidColumnCount => "Invalid number of columns. Columns: type, client, tx, amount"@,
            ParseError::InvalidKind => "Invalid transaction type"@,
            ParseError::InvalidClientId => "Invalid client id"@,
            ParseError::InvalidTransactionId => "Invalid transaction id"@,
            ParseError::InvalidAmount => "Invalid amount"@,
            ParseError::UnexpectedAmount => "An amount should be empty"@,
        }
    }

    /// The error as a line of text for the user.
    pub fn to_string(&self) -> (r: String)
        ensures
            r@ == "Transaction error: "@ + self.message(),
    {
        let mut r = String::from_str("Transaction error: ");
        match self.0 {
            ParseError::InvalidColumnCount => r.append(
                "Invalid number of columns. Columns: type, client, tx, amount",
            ),
            ParseError::InvalidKind => r.append("Invalid transaction type"),
            ParseError::InvalidClientId => r.append("Invalid client id"),
            ParseError::InvalidTransactionId => r.append("Invalid transaction id"),
            ParseError::InvalidAmount => r.append("Invalid amount"),
            ParseError::UnexpectedAmount => r.append("An amount should be empty"),
        }
        r
    }
}

/// The kind that a first column names: one of five words, in lower case.
pub open spec fn kind_of(word: Seq<char>) -> Option<InputRowTransactionType> {
    if word == "deposit"@ {
        Some(InputRowTransactionType::Deposit)
    } else if word == "withdrawal"@ {
        Some(InputRowTransactionType::Withdrawal)
    } else if word == "dispute"@ {
        Some(InputRowTransactionType::Dispute)
    } else if word == "resolve"@ {
        Some(InputRowTransactionType::Resolve)
    } else if word == "chargeback"@ {
        Some(InputRowTransactionType::Chargeback)
    } else {
        None
    }
}

/// The amount that a fourth column writes: the decimal that `rust_decimal`
/// reads it as, rounded half-to-even to four fractional digits. A decimal's
/// mantissa has no more than 96 bits, so the rounded decimal is always an
/// amount that the machine can hold.
pub open spec fn amount_of(text: Seq<char>) -> Option<Amount> {
    match parsed_decimal(text) {
        Some((mantissa, scale)) => Some(
            Amount { units: units_of(mantissa as int, scale as nat) as i128 },
        ),
        None => None,
    }
}

/// The texts of a row's columns.
pub open spec fn texts(row: Seq<&str>) -> Seq<Seq<char>> {
    Seq::new(row.len(), |i: int| row[i]@)
}

/// The transaction that a row of input stands for, or what is wrong with the
/// row. The columns are kind, client, transaction id and amount; white space
/// around a column does not count. The first fault found, in this order,
/// decides: the number of columns, the kind, the client, the id, the amount.
pub open spec fn parsed_row(columns: Seq<Seq<char>>) -> Result<TransactionRecord, ParseError> {
    if columns.len() != 4 {
        Err(ParseError::InvalidColumnCount)
    } else if kind_of(trimmed(columns[0])) is None {
        Err(ParseError::InvalidKind)
    } else if parse_unsigned(trimmed(columns[1]), u16::MAX as nat) is None {
        Err(ParseError::InvalidClientId)
    } else if parse_unsigned(trimmed(columns[2]), u32::MAX as nat) is None {
        Err(ParseError::InvalidTransactionId)
    } else {
        let kind = kind_of(trimmed(columns[0]))->0;
        let client = parse_unsigned(trimmed(columns[1]), u16::MAX as nat)->0 as ClientId;
        let id = parse_unsigned(trimmed(columns[2]), u32::MAX as nat)->0 as TransactionId;
        if !kind.carries_amount() {
            if trimmed(columns[3]).len() != 0 {
                Err(ParseError::UnexpectedAmount)
            } else {
                Ok(TransactionRecord { id, kind, client, amount: None })
            }
        } else {
            match amount_of(trimmed(columns[3])) {
                Some(amount) => Ok(TransactionRecord { id, kind, client, amount: Some(amount) }),
                None => Err(ParseError::InvalidAmount),
            }
        }
    }
}

/// Every transaction read from a row is well formed.
pub proof fn lemma_parsed_row_wf(columns: Seq<Seq<char>>)
    ensures
        parsed_row(columns) matches Ok(record) ==> record.wf(),
{
}

/// Reads the kind that a word names.
pub fn parse_kind(word: &str) -> (r: Option<InputRowTransactionType>)
    ensures
        r == kind_of(word@),
{
    if same_text(word, "deposit") {
        Some(InputRowTransactionType::Deposit)
    } else if same_text(word, "withdrawal") {
        Some(InputRowTransactionType::Withdrawal)
    } else if same_text(word, "dispute") {
        Some(InputRowTransactionType::Dispute)
    } else if same_text(word, "resolve") {
        Some(InputRowTransactionType::Resolve)
    } else if same_text(word, "chargeback") {
        Some(InputRowTransactionType::Chargeback)
    } else {
        None
    }
}

/// Reads an amount in decimal notation and rounds it half-to-even to four
/// fractional digits.
pub fn parse_amount(text: &str) -> (r: Option<Amount>)
    ensures
        r == amount_of(text@),
{
    match decimal_from_str(text) {
        Ok((mantissa, scale)) => Some(Amount::from_decimal(mantissa, scale)),
        Err(_) => None,
    }
}

/// The kind of a transaction as an input row names it.
#[derive(Debug, PartialEq, Eq, Clone, Copy, Structural)]
pub enum InputRowTransactionType {
    Deposit,
    Withdrawal,
    Dispute,
    Resolve,
    Chargeback,
}

impl InputRowTransactionType {
    /// The ledger's name for this kind.
    pub open spec fn spec_transaction_type(self) -> TransactionType {
        match self {
            InputRowTransactionType::Deposit => TransactionType::Deposit,
            InputRowTransactionType::Withdrawal => TransactionType::Withdrawal,
            InputRowTransactionType::Dispute => TransactionType::Dispute,
            InputRowTransactionType::Resolve => TransactionType::Resolve,
            InputRowTransactionType::Chargeback => TransactionType::Chargeback,
        }
    }

    /// The ledger's name for this kind.
    #[verifier::when_used_as_spec(spec_transaction_type)]
    pub fn transaction_type(self) -> (r: TransactionType)
        ensures
            r == self.spec_transaction_type(),
    {
        match self {
            InputRowTransactionType::Deposit => TransactionType::Deposit,
            InputRowTransactionType::Withdrawal => TransactionType::Withdrawal,
            InputRowTransactionType::Dispute => TransactionType::Dispute,
            InputRowTransactionType::Resolve => TransactionType::Resolve,
            InputRowTransactionType::Chargeback => TransactionType::Chargeback,
        }
    }

    /// Whether a row of this kind carries an amount.
    pub open spec fn carries_amount(self) -> bool {
        self is Deposit || self is Withdrawal
    }
}

/// A transaction as the ledger's rules see it: the view of a [`Transaction`].
pub struct TransactionRecord {
    pub id: TransactionId,
    pub kind: InputRowTransactionType,
    pub client: ClientId,
    /// The amount, where the transaction carries one.
    pub amount: Option<Amount>,
}

impl TransactionRecord {
    /// A record is well formed when it carries an amount exactly if it is a
    /// deposit or a withdrawal.
    pub open spec fn wf(self) -> bool {
        self.amount is Some <==> self.kind.carries_amount()
    }

    /// The pair under which the ledger files a transaction.
    pub open spec fn key(self) -> (TransactionId, ClientId) {
        (self.id, self.client)
    }

    /// The amount with the sign of its effect on the balance: negative for a
    /// withdrawal.
    pub open spec fn net_amount(self) -> Option<int> {
        match self.amount {
            Some(a) => if self.kind is Withdrawal {
                Some(-a@)
            } else {
                Some(a@)
            },
            None => None,
        }
    }
}

/// One input event: a deposit, a withdrawal, or a step in the dispute of an
/// earlier one.
#[derive(Debug, PartialEq, Clone, Copy)]
pub struct Transaction {
    tx_id: TransactionId,
    tx_type: InputRowTransactionType,
    client_id: ClientId,
    amount: Option<Amount>,
}

impl View for Transaction {
    type V = TransactionRecord;

    closed spec fn view(&self) -> TransactionRecord {
        TransactionRecord {
            id: self.tx_id,
            kind: self.tx_type,
            client: self.client_id,
            amount: self.amount,
        }
    }
}

impl Transaction {
    /// A transaction with the given parts. Nothing is asked of them: a
    /// deposit without an amount can be built, and the ledger turns it down.
    pub fn new(
        tx_id: TransactionId,
        tx_type: InputRowTransactionType,
        client_id: ClientId,
        amount: Option<Amount>,
    ) -> (r: Self)
        ensures
            r@ == (TransactionRecord { id: tx_id, kind: tx_type, client: client_id, amount }),
    {
        Transaction { tx_id, tx_type, client_id, amount }
    }

    /// The id of the transaction, or of the one it refers to.
    pub fn get_transaction_id(&self) -> (r: TransactionId)
        ensures
            r == self@.id,
    {
        self.tx_id
    }

    /// The kind of the transaction.
    pub fn get_transaction_type(&self) -> (r: InputRowTransactionType)
        ensures
            r == self@.kind,
    {
        self.tx_type
    }

    /// The client whose account the transaction is for.
    pub fn get_client_id(&self) -> (r: ClientId)
        ensures
            r == self@.client,
    {
        self.client_id
    }

    /// The amount, where the transaction carries one.
    pub fn get_amount(&self) -> (r: Option<Amount>)
        ensures
            r == self@.amount,
    {
        self.amount
    }

    /// The amount with the sign of its effect on the balance: negated for a
    /// withdrawal, as it stands for any other kind.
    ///
    /// The smallest amount the machine holds has no negation, so a withdrawal
    /// of it is left out.
    pub fn get_net_amount(&self) -> (r: Option<Amount>)
        requires
            self@.net_amount() matches Some(n) ==> n <= i128::MAX,
        ensures
            r is Some <==> self@.net_amount() is Some,
            r matches Some(n) ==> self@.net_amount() == Some(n@),
    {
        match self.amount {
            Some(amount) => {
                if self.tx_type == InputRowTransactionType::Withdrawal {
                    Some(Amount { units: -amount.units })
                } else {
                    Some(amount)
                }
            },
            None => None,
        }
    }

    /// Reads a row of input as a transaction: the columns are kind, client,
    /// transaction id and amount.
    pub fn try_from(value: &[&str]) -> (r: Result<Transaction, TxError>)
        ensures
            match r {
                Ok(tx) => parsed_row(texts(value@)) == Ok::<TransactionRecord, ParseError>(tx@),
                Err(e) => parsed_row(texts(value@)) == Err::<TransactionRecord, ParseError>(e.0),
            },
    {
        // a row has four columns
        if value.len() != 4 {
            return Err(TxError(ParseError::InvalidColumnCount));
        }
        let col_tx_type = trim(value[0]);
        let col_client_id = trim(value[1]);
        let col_tx_id = trim(value[2]);
        let col_amount = trim(value[3]);

        let tx_type = match parse_kind(col_tx_type) {
            Some(kind) => kind,
            None => return Err(TxError(ParseError::InvalidKind)),
        };

        let client_id: ClientId = match parse_u16(col_client_id) {
            Some(client) => client,
            None => return Err(TxError(ParseError::InvalidClientId)),
        };

        let tx_id: TransactionId = match parse_u32(col_tx_id) {
            Some(tx) => tx,
            None => return Err(TxError(ParseError::InvalidTransactionId)),
        };

        // a step in a dispute names a transaction and carries no amount of its own
        let is_no_amount_transaction_type = tx_type == InputRowTransactionType::Dispute || tx_type
            == InputRowTransactionType::Resolve || tx_type == InputRowTransactionType::Chargeback;

        if is_no_amount_transaction_type {
            if !col_amount.is_empty() {
                return Err(TxError(ParseError::UnexpectedAmount));
            }
            return Ok(Transaction::new(tx_id, tx_type, client_id, None));
        }

        let amount = match parse_amount(col_amount) {
            Some(amount) => amount,
            None => return Err(TxError(ParseError::InvalidAmount)),
        };

        Ok(Transaction::new(tx_id, tx_type, client_id, Some(amount)))
    }
}

} // verus!
