//! The aggregate record kept for one query identifier.

use vstd::prelude::*;

verus! {

/// Number of bytes of statement text that a record keeps.
pub const SNIPPET_LEN: usize = 256;

/// What a record stands for: its text buffer and the number of executions
/// counted so far.
pub struct QueryStats {
    /// The whole buffer, `SNIPPET_LEN` bytes long.
    pub text: Seq<u8>,
    /// Observed executions, never above `usize::MAX`.
    pub calls: nat,
}

/// The buffer that stores `text`: its first `SNIPPET_LEN` bytes, then zero
/// bytes up to `SNIPPET_LEN`. Bytes beyond the buffer are dropped.
pub open spec fn snippet_of(text: Seq<u8>) -> Seq<u8> {
    Seq::new(SNIPPET_LEN as nat, |i: int| if i < text.len() { text[i] } else { 0u8 })
}

/// The buffer of a record that has seen no text.
pub open spec fn blank_snippet() -> Seq<u8> {
    Seq::new(SNIPPET_LEN as nat, |i: int| 0u8)
}

/// The counter after one more execution: it stops at `usize::MAX` instead of
/// wrapping around.
pub open spec fn bump(calls: nat) -> nat {
    if calls < usize::MAX {
        calls + 1
    } else {
        calls
    }
}

/// A count of `n` executions as the counter shows it: `n` itself until it
/// passes `usize::MAX`, where the counter stays.
pub open spec fn saturated(n: nat) -> nat {
    if n <= usize::MAX {
        n
    } else {
        usize::MAX as nat
    }
}

/// The text held in a buffer: the bytes before its first zero byte, or the
/// whole buffer when it has none.
pub open spec fn until_nul(buf: Seq<u8>) -> Seq<u8>
    decreases buf.len(),
{
    if buf.len() == 0 || buf[0] == 0u8 {
        Seq::empty()
    } else {
        seq![buf[0]] + until_nul(buf.drop_first())
    }
}

/// The text in a buffer ends where the first zero byte stands, or with the
/// buffer if no byte before its end is zero.
pub proof fn lemma_until_nul(buf: Seq<u8>, n: int)
    requires
        0 <= n <= buf.len(),
        forall|j: int| 0 <= j < n ==> buf[j] != 0u8,
        n == buf.len() || buf[n] == 0u8,
    ensures
        until_nul(buf) == buf.take(n),
    decreases n,
{
    if n == 0 {
        assert(buf.take(0) =~= Seq::<u8>::empty());
    } else {
        let rest = buf.drop_first();
        assert forall|j: int| 0 <= j < n - 1 implies rest[j] != 0u8 by {
            assert(rest[j] == buf[j + 1]);
        }
        lemma_until_nul(rest, n - 1);
        assert(seq![buf[0]] + rest.take(n - 1) =~= buf.take(n));
    }
}

/// Storing a text keeps its first `SNIPPET_LEN` bytes as they are. A text
/// without a zero byte among them is read back as exactly those bytes.
pub proof fn lemma_snippet_keeps_prefix(text: Seq<u8>)
    ensures
        snippet_of(text).len() == SNIPPET_LEN,
        text.len() <= SNIPPET_LEN ==> snippet_of(text).take(text.len() as int) == text,
        text.len() > SNIPPET_LEN ==> snippet_of(text) == text.take(SNIPPET_LEN as int),
        (forall|j: int| 0 <= j < text.len() && j < SNIPPET_LEN ==> text[j] != 0u8) ==> until_nul(
            snippet_of(text),
        ) == text.take(if text.len() < SNIPPET_LEN { text.len() as int } else { SNIPPET_LEN as int }),
{
    let kept: int = if text.len() < SNIPPET_LEN { text.len() as int } else { SNIPPET_LEN as int };
    assert(snippet_of(text).take(kept) =~= text.take(kept));
    if text.len() <= SNIPPET_LEN {
        assert(text.take(text.len() as int) =~= text);
    } else {
        assert(snippet_of(text) =~= snippet_of(text).take(SNIPPET_LEN as int));
    }
    if forall|j: int| 0 <= j < text.len() && j < SNIPPET_LEN ==> text[j] != 0u8 {
        lemma_until_nul(snippet_of(text), kept);
    }
}

/// Aggregate entry of the statistics table.
#[derive(Copy, Clone, Debug)]
pub struct SmQuery {
    query_text: [u8; 256],
    num_calls: usize,
}

impl View for SmQuery {
    type V = QueryStats;

    closed spec fn view(&self) -> QueryStats {
        QueryStats { text: self.query_text@, calls: self.num_calls as nat }
    }
}

impl Default for SmQuery {
    /// The record of a slot that was never written: no text, no calls.
    fn default() -> (r: Self)
        ensures
            r@ == (QueryStats { text: blank_snippet(), calls: 0 }),
    {
        let r = Self { query_text: [0u8; 256], num_calls: 0 };
        assert(r.query_text@ =~= blank_snippet());
        r
    }
}

impl SmQuery {
    /// Every record has a full buffer and a counter that fits the machine
    /// word.
    pub proof fn lemma_view_valid(self)
        ensures
            self@.text.len() == SNIPPET_LEN,
            self@.calls <= usize::MAX,
    {
    }

    /// Two records that stand for the same thing are the same record.
    pub proof fn lemma_view_injective(self, other: SmQuery)
        requires
            self@ == other@,
        ensures
            self == other,
    {
        assert(self.query_text@ == other.query_text@);
        assert(self.query_text == other.query_text);
    }

    /// A record with the given text and count. The text is cut to the
    /// buffer: bytes beyond `SNIPPET_LEN` are dropped silently, and a
    /// shorter text is followed by zero bytes.
    pub fn new(text: &[u8], num_calls: usize) -> (r: Self)
        ensures
            r@ == (QueryStats { text: snippet_of(text@), calls: num_calls as nat }),
    {
        let mut buf = [0u8; 256];
        let n: usize = if text.len() < SNIPPET_LEN {
            text.len()
        } else {
            SNIPPET_LEN
        };
        let mut i: usize = 0;
        while i < n
            invariant
                i <= n <= SNIPPET_LEN,
                n <= text@.len(),
                buf@.len() == SNIPPET_LEN,
                forall|j: int| 0 <= j < i ==> buf@[j] == text@[j],
                forall|j: int| i <= j < SNIPPET_LEN ==> buf@[j] == 0u8,
            decreases n - i,
        {
            buf[i] = text[i];
            i += 1;
        }
        assert(buf@ =~= snippet_of(text@));
        Self { query_text: buf, num_calls }
    }

    /// Counts one more execution. The text stays as the first call left it;
    /// the counter saturates.
    pub fn record_call(&mut self)
        ensures
            final(self)@ == (QueryStats { text: old(self)@.text, calls: bump(old(self)@.calls) }),
    {
        self.num_calls = self.num_calls.saturating_add(1);
    }

    /// The text buffer as stored.
    pub fn query_text(&self) -> (r: &[u8; 256])
        ensures
            r@ == self@.text,
    {
        &self.query_text
    }

    /// The length of the stored text: the number of bytes before the first
    /// zero byte of the buffer, or `SNIPPET_LEN` if it has none.
    pub fn text_len(&self) -> (n: usize)
        ensures
            n == until_nul(self@.text).len(),
            n <= SNIPPET_LEN,
            until_nul(self@.text) == self@.text.take(n as int),
    {
        let mut i: usize = 0;
        while i < SNIPPET_LEN && self.query_text[i] != 0
            invariant
                i <= SNIPPET_LEN,
                self.query_text@.len() == SNIPPET_LEN,
                forall|j: int| 0 <= j < i ==> self.query_text@[j] != 0u8,
            decreases SNIPPET_LEN - i,
        {
            i += 1;
        }
        proof {
            lemma_until_nul(self.query_text@, i as int);
        }
        i
    }

    /// The number of executions counted.
    pub fn num_calls(&self) -> (r: usize)
        ensures
            r == self@.calls,
    {
        self.num_calls
    }
}

} // verus!
