//! The decisions of a language server session: how the messages a server
//! sends are routed, how the id of a response is read back, what an error
//! response is reported as, and when a shutdown is still to be made.
//!
//! The process, its pipes and the threads that read and write them belong to
//! the application, which hands each message's kind and method here and acts
//! on the answer.
use vstd::prelude::*;
use vstd::string::*;
use std::collections::HashMap;
use crate::namemap::NameMap;
use crate::text::{chars_of, str_equal};
use crate::tools::symbol_tools::{decimal, decimal_digits, decimal_text, digit_char};

verus! {

/// Where a notification from the server goes.
#[derive(Debug, Clone, Copy, PartialEq, Eq, Structural)]
pub enum NotificationRoute {
    /// A message for the user (`window/showMessage`, `window/logMessage`).
    Log,
    /// Diagnostics to keep for a document (`textDocument/publishDiagnostics`).
    Diagnostics,
    /// Anything else, which is only traced.
    Ignore,
}

/// The route of a notification with the method `method`.
pub open spec fn notification_route_of(method: Seq<char>) -> NotificationRoute {
    if method == "window/showMessage"@ || method == "window/logMessage"@ {
        NotificationRoute::Log
    } else if method == "textDocument/publishDiagnostics"@ {
        NotificationRoute::Diagnostics
    } else {
        NotificationRoute::Ignore
    }
}

/// Where a notification from the server goes.
pub fn route_notification(method: &str) -> (r: NotificationRoute)
    ensures
        r == notification_route_of(method@),
{
    if str_equal(method, "window/showMessage") || str_equal(method, "window/logMessage") {
        NotificationRoute::Log
    } else if str_equal(method, "textDocument/publishDiagnostics") {
        NotificationRoute::Diagnostics
    } else {
        NotificationRoute::Ignore
    }
}

/// The requests from the server that the client acknowledges with a null
/// result; others are left unanswered.
pub open spec fn acknowledged_request(method: Seq<char>) -> bool {
    method == "window/showMessageRequest"@ || method == "client/registerCapability"@
}

/// Whether a request from the server is acknowledged.
pub fn acknowledges_request(method: &str) -> (b: bool)
    ensures
        b == acknowledged_request(method@),
{
    str_equal(method, "window/showMessageRequest") || str_equal(method, "client/registerCapability")
}

/// The value of the decimal digits `s`.
pub open spec fn digits_value(s: Seq<char>) -> nat
    decreases s.len(),
{
    if s.len() == 0 {
        0
    } else {
        10 * digits_value(s.drop_last()) + digit_value(s.last())
    }
}

/// The value of a decimal digit.
pub open spec fn digit_value(c: char) -> nat {
    ((c as u32) - ('0' as u32)) as nat
}

/// `c` is a decimal digit.
pub open spec fn is_digit(c: char) -> bool {
    '0' <= c && c <= '9'
}

/// `text` without the `+` it may start with.
pub open spec fn digits_part(text: Seq<char>) -> Seq<char> {
    if text.len() > 0 && text[0] == '+' {
        text.drop_first()
    } else {
        text
    }
}

/// The unsigned integer that `text` denotes as `str::parse::<u64>` reads it:
/// an optional `+`, then one or more decimal digits, for a value below 2^64;
/// `None` otherwise.
pub open spec fn parsed_u64(text: Seq<char>) -> Option<u64> {
    let digits = digits_part(text);
    if digits.len() > 0 && (forall|i: int| 0 <= i < digits.len() ==> is_digit(#[trigger] digits[i]))
        && digits_value(digits) <= u64::MAX {
        Some(digits_value(digits) as u64)
    } else {
        None
    }
}

/// The id of a response as the text of its `id` reads: the request number,
/// or 0 when the text is not one (string ids, negative numbers).
pub open spec fn response_id(text: Seq<char>) -> u64 {
    match parsed_u64(text) {
        Some(n) => n,
        None => 0,
    }
}

/// The value of the digits `s[0..k]`.
proof fn lemma_digits_value_take_succ(s: Seq<char>, k: int)
    requires
        0 <= k < s.len(),
    ensures
        digits_value(s.take(k + 1)) == 10 * digits_value(s.take(k)) + digit_value(s[k]),
{
    assert(s.take(k + 1).drop_last() =~= s.take(k));
    assert(s.take(k + 1).last() == s[k]);
}

/// The id of a response as the text of its `id` reads.
pub fn parse_response_id(text: &str) -> (id: u64)
    ensures
        id == response_id(text@),
{
    let cs = chars_of(text);
    let start: usize = if cs.len() > 0 && cs[0] == '+' {
        1
    } else {
        0
    };
    let ghost digits = digits_part(text@);
    assert(digits =~= cs@.skip(start as int));
    if start >= cs.len() {
        assert(digits.len() == 0);
        return 0;
    }
    let mut value: u64 = 0;
    let mut i = start;
    assert(digits.take(0) =~= Seq::<char>::empty());
    while i < cs.len()
        invariant
            start <= i <= cs@.len(),
            cs@ == text@,
            digits == digits_part(text@),
            digits =~= cs@.skip(start as int),
            value == digits_value(digits.take(i - start)),
            forall|j: int| 0 <= j < i - start ==> is_digit(#[trigger] digits[j]),
        decreases cs.len() - i,
    {
        let c = cs[i];
        let k = i - start;
        assert(digits[k as int] == c);
        if !('0' <= c && c <= '9') {
            assert(!is_digit(digits[k as int]));
            return 0;
        }
        proof {
            lemma_digits_value_take_succ(digits, k as int);
        }
        let d = (c as u32 - '0' as u32) as u64;
        assert(d == digit_value(c));
        if value > (u64::MAX - d) / 10 {
            proof {
                lemma_digits_prefix_bound(digits, (k + 1) as int);
                assert(digits_value(digits.take(k + 1)) > u64::MAX) by (nonlinear_arith)
                    requires
                        value > (u64::MAX - d) / 10,
                        digits_value(digits.take(k + 1)) == 10 * value + d,
                        d <= 9,
                {
                }
            }
            return 0;
        }
        assert(10 * value + d <= u64::MAX) by (nonlinear_arith)
            requires
                value <= (u64::MAX - d) / 10,
                d <= 9,
        {
        }
        value = value * 10 + d;
        i = i + 1;
    }
    assert(digits.take(cs@.len() - start) =~= digits);
    value
}

/// A longer prefix of digits never has a smaller value, so once a prefix
/// exceeds `u64::MAX` the whole text does.
proof fn lemma_digits_prefix_bound(s: Seq<char>, k: int)
    requires
        0 <= k <= s.len(),
    ensures
        digits_value(s.take(k)) <= digits_value(s),
    decreases s.len() - k,
{
    if k < s.len() {
        lemma_digits_prefix_bound(s, k + 1);
        lemma_digits_value_take_succ(s, k);
    } else {
        assert(s.take(k) =~= s);
    }
}

/// The digit characters denote their values.
proof fn lemma_digit_char_value(d: int)
    requires
        0 <= d < 10,
    ensures
        digit_value(digit_char(d)) == d,
        is_digit(digit_char(d)),
{
    if d == 0 {
        assert(digit_char(d) == '0');
    } else if d == 1 {
        assert(('1' as u32) == ('0' as u32) + 1);
    } else if d == 2 {
        assert(('2' as u32) == ('0' as u32) + 2);
    } else if d == 3 {
        assert(('3' as u32) == ('0' as u32) + 3);
    } else if d == 4 {
        assert(('4' as u32) == ('0' as u32) + 4);
    } else if d == 5 {
        assert(('5' as u32) == ('0' as u32) + 5);
    } else if d == 6 {
        assert(('6' as u32) == ('0' as u32) + 6);
    } else if d == 7 {
        assert(('7' as u32) == ('0' as u32) + 7);
    } else if d == 8 {
        assert(('8' as u32) == ('0' as u32) + 8);
    } else {
        assert(('9' as u32) == ('0' as u32) + 9);
    }
}

/// The value of the decimal digits of `n` is `n`.
pub proof fn lemma_decimal_digits_value(n: nat)
    ensures
        digits_value(decimal_digits(n)) == n,
        forall|i: int| 0 <= i < decimal_digits(n).len() ==> is_digit(#[trigger] decimal_digits(n)[i]),
    decreases n,
{
    if n < 10 {
        lemma_digit_char_value(n as int);
        assert(decimal_digits(n) =~= seq![digit_char(n as int)]);
        assert(decimal_digits(n).drop_last() =~= Seq::<char>::empty());
        assert(digits_value(Seq::<char>::empty()) == 0);
        assert(digits_value(decimal_digits(n)) == 10 * digits_value(decimal_digits(n).drop_last())
            + digit_value(decimal_digits(n).last()));
    } else {
        lemma_digit_char_value((n % 10) as int);
        lemma_decimal_digits_value(n / 10);
        let d = decimal_digits(n);
        assert(d.drop_last() =~= decimal_digits(n / 10));
        assert(d.last() == digit_char((n % 10) as int));
        assert forall|i: int| 0 <= i < d.len() implies is_digit(#[trigger] d[i]) by {
            if i < d.len() - 1 {
                assert(d[i] == d.drop_last()[i]);
                assert(is_digit(decimal_digits(n / 10)[i]));
            } else {
                assert(d[i] == d.last());
            }
        }
        assert(digits_value(d) == 10 * digits_value(d.drop_last()) + digit_value(d.last()));
        assert(10 * (n / 10) + n % 10 == n);
    }
}

/// A request numbered `n` (sent as a 32-bit id) is recognised in the
/// response that carries its id back: reading the decimal text of `n` gives
/// `n`.
pub proof fn law_response_id_round_trip(n: i32)
    requires
        n >= 0,
    ensures
        response_id(decimal(n as int)) == n,
{
    lemma_decimal_digits_value(n as nat);
    let t = decimal(n as int);
    assert(t == decimal_digits(n as nat));
    assert(t.len() > 0);
    assert(t[0] != '+') by {
        assert(is_digit(t[0]));
    }
}

/// The message of an error response.
pub open spec fn lsp_error_text(code: i32, message: Seq<char>) -> Seq<char> {
    "LSP error ("@ + decimal(code as int) + "): "@ + message
}

/// The message of an error response from the server.
pub fn lsp_error_message(code: i32, message: &str) -> (m: String)
    ensures
        m@ == lsp_error_text(code, message@),
{
    let mut m = String::from_str("LSP error (");
    let d = decimal_text(code);
    m.append(d.as_str());
    m.append("): ");
    m.append(message);
    m
}

/// Whether a graceful shutdown is still to be made: only for an initialized
/// session that is not already shutting down.
pub fn needs_shutdown(initialized: bool, shutting_down: bool) -> (b: bool)
    ensures
        b == (initialized && !shutting_down),
{
    !(shutting_down || !initialized)
}


/// One message from the server, as the reader hands it over.
pub enum ServerMessage<D> {
    /// A response; `id` is the text of its id.
    Response { id: String },
    /// A notification with the method `method`; `published` is the document
    /// and the diagnostics its parameters carry, when they are parameters of
    /// `textDocument/publishDiagnostics`.
    Notification { method: String, published: Option<(String, D)> },
    /// A request from the server with the method `method`.
    Request { method: String },
    /// The connection closed.
    Closed,
}

/// What the reader does with a message.
pub enum ReaderAction<W> {
    /// Hand the response to this waiter.
    Deliver(W),
    /// No request waits for a response with this id: trace it.
    Unmatched(u64),
    /// Log the message the notification carries.
    Log,
    /// The published diagnostics were kept.
    DiagnosticsKept,
    /// Nothing is done: diagnostics whose parameters could not be read.
    Nothing,
    /// Trace a notification that is not otherwise handled.
    Trace,
    /// Answer the request with its own id and a null result.
    Acknowledge,
    /// Warn of a request that is not handled.
    Unhandled,
    /// Stop reading.
    Stop,
}

/// The waiters after `msg`: a response's id no longer waits.
pub open spec fn pending_after<W, D>(pending: Map<u64, W>, msg: ServerMessage<D>) -> Map<u64, W> {
    match msg {
        ServerMessage::Response { id } => pending.remove(response_id(id@)),
        _ => pending,
    }
}

/// The diagnostics after `msg`: published diagnostics replace the document's
/// earlier ones.
pub open spec fn diagnostics_after<W, D>(diagnostics: Map<Seq<char>, D>, msg: ServerMessage<D>) -> Map<Seq<char>, D> {
    match msg {
        ServerMessage::Notification { method, published } => {
            if notification_route_of(method@) == NotificationRoute::Diagnostics {
                match published {
                    Some((uri, d)) => diagnostics.insert(uri@, d),
                    None => diagnostics,
                }
            } else {
                diagnostics
            }
        },
        _ => diagnostics,
    }
}

/// What the reader does with `msg` while `pending` wait.
pub open spec fn reader_action<W, D>(pending: Map<u64, W>, msg: ServerMessage<D>) -> ReaderAction<W> {
    match msg {
        ServerMessage::Response { id } => {
            let n = response_id(id@);
            if pending.contains_key(n) {
                ReaderAction::Deliver(pending[n])
            } else {
                ReaderAction::Unmatched(n)
            }
        },
        ServerMessage::Notification { method, published } => match notification_route_of(method@) {
            NotificationRoute::Log => ReaderAction::Log,
            NotificationRoute::Diagnostics => if published is Some {
                ReaderAction::DiagnosticsKept
            } else {
                ReaderAction::Nothing
            },
            NotificationRoute::Ignore => ReaderAction::Trace,
        },
        ServerMessage::Request { method } => if acknowledged_request(method@) {
            ReaderAction::Acknowledge
        } else {
            ReaderAction::Unhandled
        },
        ServerMessage::Closed => ReaderAction::Stop,
    }
}

/// The reader's state in a session with a language server: the requests that
/// wait for their responses, by id, with whatever waits for each (`W`), and
/// the latest diagnostics published for each document (`D`).
pub struct LspSession<W, D> {
    pending: HashMap<u64, W>,
    diagnostics: NameMap<D>,
}

impl<W, D> LspSession<W, D> {
    /// The waiters by request id.
    pub closed spec fn pending_view(&self) -> Map<u64, W> {
        self.pending@
    }

    /// The diagnostics by document.
    pub closed spec fn diagnostics_view(&self) -> Map<Seq<char>, D> {
        self.diagnostics.map()
    }

    /// The documents are distinct.
    pub closed spec fn wf(&self) -> bool {
        self.diagnostics.wf()
    }

    /// No request waits and no diagnostics are kept.
    pub fn new() -> (s: Self)
        ensures
            s.wf(),
            s.pending_view() == Map::<u64, W>::empty(),
            s.diagnostics_view() == Map::<Seq<char>, D>::empty(),
    {
        let s = LspSession { pending: HashMap::new(), diagnostics: NameMap::new() };
        assert(s.diagnostics_view() =~= Map::<Seq<char>, D>::empty());
        s
    }

    /// Request `id` waits for its response with `waiter`.
    pub fn await_response(&mut self, id: u64, waiter: W)
        requires
            old(self).wf(),
        ensures
            final(self).wf(),
            final(self).pending_view() == old(self).pending_view().insert(id, waiter),
            final(self).diagnostics_view() == old(self).diagnostics_view(),
    {
        broadcast use vstd::std_specs::hash::group_hash_axioms;
        self.pending.insert(id, waiter);
    }

    /// Request `id` no longer waits (its response came, or waiting ended).
    pub fn forget(&mut self, id: u64)
        requires
            old(self).wf(),
        ensures
            final(self).wf(),
            final(self).pending_view() == old(self).pending_view().remove(id),
            final(self).diagnostics_view() == old(self).diagnostics_view(),
    {
        broadcast use vstd::std_specs::hash::group_hash_axioms;
        let _ = self.pending.remove(&id);
    }

    /// The diagnostics last published for the document `uri`, if any.
    pub fn diagnostics_for(&self, uri: &str) -> (r: Option<&D>)
        requires
            self.wf(),
        ensures
            r matches Some(d) ==> self.diagnostics_view().contains_key(uri@) && self.diagnostics_view()[uri@] == *d,
            r is None ==> !self.diagnostics_view().contains_key(uri@),
    {
        self.diagnostics.get(uri)
    }

    /// Forget the diagnostics of every document.
    pub fn clear_diagnostics(&mut self)
        ensures
            final(self).wf(),
            final(self).pending_view() == old(self).pending_view(),
            final(self).diagnostics_view() == Map::<Seq<char>, D>::empty(),
    {
        self.diagnostics = NameMap::new();
        assert(self.diagnostics_view() =~= Map::<Seq<char>, D>::empty());
    }

    /// Take one message from the server: a response goes to the request that
    /// waits for its id, which then no longer waits; published diagnostics
    /// replace the document's earlier ones; the answer says what the reader
    /// does.
    pub fn step(&mut self, msg: ServerMessage<D>) -> (a: ReaderAction<W>)
        requires
            old(self).wf(),
        ensures
            final(self).wf(),
            a == reader_action(old(self).pending_view(), msg),
            final(self).pending_view() == pending_after::<W, D>(old(self).pending_view(), msg),
            final(self).diagnostics_view() == diagnostics_after::<W, D>(old(self).diagnostics_view(), msg),
    {
        broadcast use vstd::std_specs::hash::group_hash_axioms;
        let ghost m = msg;
        match msg {
            ServerMessage::Response { id } => {
                let n = parse_response_id(id.as_str());
                match self.pending.remove(&n) {
                    Some(w) => ReaderAction::Deliver(w),
                    None => ReaderAction::Unmatched(n),
                }
            },
            ServerMessage::Notification { method, published } => match route_notification(method.as_str()) {
                NotificationRoute::Log => ReaderAction::Log,
                NotificationRoute::Diagnostics => match published {
                    Some((uri, d)) => {
                        self.diagnostics.insert(uri, d);
                        ReaderAction::DiagnosticsKept
                    },
                    None => ReaderAction::Nothing,
                },
                NotificationRoute::Ignore => ReaderAction::Trace,
            },
            ServerMessage::Request { method } => if acknowledges_request(method.as_str()) {
                ReaderAction::Acknowledge
            } else {
                ReaderAction::Unhandled
            },
            ServerMessage::Closed => ReaderAction::Stop,
        }
    }
}

/// A response reaches the request that waits for its id exactly once: the
/// reader hands it to that request's waiter, the id no longer waits, and a
/// second response with the same id finds no waiter.
pub proof fn law_response_delivered_once<W, D>(pending: Map<u64, W>, msg: ServerMessage<D>)
    requires
        msg matches ServerMessage::Response { id } && pending.contains_key(response_id(id@)),
    ensures
        msg matches ServerMessage::Response { id } && {
            let n = response_id(id@);
            &&& reader_action(pending, msg) == ReaderAction::Deliver(pending[n])
            &&& !pending_after::<W, D>(pending, msg).contains_key(n)
            &&& reader_action(pending_after::<W, D>(pending, msg), msg) == ReaderAction::<W>::Unmatched(n)
        },
{
}

/// Published diagnostics replace whatever was kept for the document, and
/// leave every other document's diagnostics as they were.
pub proof fn law_published_diagnostics_replace<W, D>(diagnostics: Map<Seq<char>, D>, msg: ServerMessage<D>)
    requires
        msg matches ServerMessage::Notification { method, published } && method@ == "textDocument/publishDiagnostics"@
            && published is Some,
    ensures
        msg matches ServerMessage::Notification { method, published } && published matches Some((uri, d)) && {
            let after = diagnostics_after::<W, D>(diagnostics, msg);
            &&& after.contains_key(uri@) && after[uri@] == d
            &&& forall|k: Seq<char>| k != uri@ ==> after.contains_key(k) == diagnostics.contains_key(k)
                && (diagnostics.contains_key(k) ==> after[k] == diagnostics[k])
        },
{
    reveal_strlit("textDocument/publishDiagnostics");
    reveal_strlit("window/showMessage");
    reveal_strlit("window/logMessage");
    if let ServerMessage::Notification { method, published } = msg {
        assert(method@.len() != "window/showMessage"@.len());
        assert(method@.len() != "window/logMessage"@.len());
        assert(notification_route_of(method@) == NotificationRoute::Diagnostics);
    }
}

} // verus!
