//! A deduplicating string table. Interning byte content yields a small
//! opaque handle; interning equal content twice yields the identical handle,
//! and distinct content yields distinct handles (see
//! [`lemma_intern_idempotent`] and [`lemma_intern_distinct`]). Handles are
//! numbered by insertion order, starting at zero.
//!
//! The table is an explicit value owned by whoever creates it and passed by
//! reference, so independent tables can coexist; no hidden global state.

use vstd::prelude::*;

use crate::lexer::{
    all_digits, digits_value, is_digit_byte, lemma_digits_value_nonneg, lemma_digits_value_prefix,
};

verus! {

/// An opaque handle into an [`Interner`]. Equality of handles from one table
/// is equality of the interned content; handles never compare as strings.
#[derive(Debug, Copy, Clone, PartialEq, Eq, Hash, Structural)]
pub struct Symbol(u32);

/// The first index at or after `i` whose table entry equals `t`.
pub open spec fn find_from(tbl: Seq<Seq<u8>>, t: Seq<u8>, i: int) -> Option<int>
    decreases tbl.len() - i,
{
    if i < 0 || i >= tbl.len() {
        None
    } else if tbl[i] == t {
        Some(i)
    } else {
        find_from(tbl, t, i + 1)
    }
}

/// The interner's model: interning `t` into table `tbl` returns the table
/// unchanged together with the index of `t` when it is already present, and
/// otherwise appends `t` and returns the index of the new last entry.
pub open spec fn spec_intern(tbl: Seq<Seq<u8>>, t: Seq<u8>) -> (Seq<Seq<u8>>, int) {
    match find_from(tbl, t, 0) {
        Some(i) => (tbl, i),
        None => (tbl.push(t), tbl.len() as int),
    }
}

pub proof fn lemma_find_from_props(tbl: Seq<Seq<u8>>, t: Seq<u8>, i: int)
    requires
        0 <= i,
    ensures
        (match find_from(tbl, t, i) {
            Some(j) => i <= j < tbl.len() && tbl[j] == t,
            None => forall|k: int| i <= k < tbl.len() ==> #[trigger] tbl[k] != t,
        }),
    decreases tbl.len() - i,
{
    if i < tbl.len() && tbl[i] != t {
        lemma_find_from_props(tbl, t, i + 1);
    }
}

pub proof fn lemma_find_from_push(tbl: Seq<Seq<u8>>, t: Seq<u8>, i: int)
    requires
        0 <= i <= tbl.len(),
        forall|k: int| i <= k < tbl.len() ==> #[trigger] tbl[k] != t,
    ensures
        find_from(tbl.push(t), t, i) == Some(tbl.len() as int),
    decreases tbl.len() - i,
{
    if i < tbl.len() {
        lemma_find_from_push(tbl, t, i + 1);
    }
}

/// Interning is idempotent: interning the same content a second time
/// returns the identical handle and leaves the table as it was.
pub proof fn lemma_intern_idempotent(tbl: Seq<Seq<u8>>, t: Seq<u8>)
    ensures
        spec_intern(spec_intern(tbl, t).0, t).0 == spec_intern(tbl, t).0,
        spec_intern(spec_intern(tbl, t).0, t).1 == spec_intern(tbl, t).1,
{
    lemma_find_from_props(tbl, t, 0);
    if find_from(tbl, t, 0) is None {
        lemma_find_from_push(tbl, t, 0);
    }
}

/// Interning distinct contents returns distinct handles, in whichever order
/// the two contents reach the table.
pub proof fn lemma_intern_distinct(tbl: Seq<Seq<u8>>, t: Seq<u8>, u: Seq<u8>)
    requires
        t != u,
    ensures
        spec_intern(spec_intern(tbl, t).0, u).1 != spec_intern(tbl, t).1,
{
    let (tbl1, i) = spec_intern(tbl, t);
    let (tbl2, j) = spec_intern(tbl1, u);
    lemma_find_from_props(tbl, t, 0);
    if find_from(tbl, t, 0) is None {
        lemma_find_from_push(tbl, t, 0);
    }
    lemma_find_from_props(tbl1, u, 0);
    assert(tbl1[i] == t);
    if i == j {
        assert(tbl2[j] == u);
        assert(tbl2[i] == tbl1[i]);
    }
}

/// The digits of a textual integer, past any single leading `+` or `-`.
pub open spec fn numeral_body(s: Seq<u8>) -> Seq<u8> {
    if s.len() >= 1 && (s[0] == 43 || s[0] == 45) {
        s.subrange(1, s.len() as int)
    } else {
        s
    }
}

/// The content is a textual integer: an optional single `+` or `-` sign
/// followed by at least one decimal digit.
pub open spec fn is_numeral(s: Seq<u8>) -> bool {
    numeral_body(s).len() > 0 && all_digits(numeral_body(s))
}

/// The signed value of a textual integer.
pub open spec fn numeral_value(s: Seq<u8>) -> int {
    if s.len() >= 1 && s[0] == 45 {
        -digits_value(numeral_body(s))
    } else {
        digits_value(numeral_body(s))
    }
}

/// The deduplicating string table: the interned contents, in insertion
/// order. Its view is the sequence of interned byte strings.
pub struct Interner {
    strings: Vec<Vec<u8>>,
}

impl View for Interner {
    type V = Seq<Seq<u8>>;

    closed spec fn view(&self) -> Seq<Seq<u8>> {
        self.strings@.map_values(|v: Vec<u8>| v@)
    }
}

impl Interner {
    /// No two entries of the table hold the same content.
    pub open spec fn wf(&self) -> bool {
        forall|i: int, j: int|
            0 <= i < j < self@.len() ==> #[trigger] self@[i] != #[trigger] self@[j]
    }

    /// An empty table.
    pub fn new() -> (it: Interner)
        ensures
            it.wf(),
            it@ == Seq::<Seq<u8>>::empty(),
    {
        let it = Interner { strings: Vec::new() };
        proof {
            assert(it@ =~= Seq::<Seq<u8>>::empty());
        }
        it
    }

    fn find(&self, text: &Vec<u8>) -> (r: Option<usize>)
        ensures
            (match r {
                Some(i) => find_from(self@, text@, 0) == Some(i as int),
                None => find_from(self@, text@, 0) is None,
            }),
    {
        let mut i: usize = 0;
        while i < self.strings.len()
            invariant
                i <= self.strings.len(),
                find_from(self@, text@, 0) == find_from(self@, text@, i as int),
            decreases self.strings.len() - i,
        {
            if bytes_eq(&self.strings[i], text) {
                proof {
                    assert(self@[i as int] == text@);
                }
                return Some(i);
            }
            proof {
                assert(self@[i as int] != text@);
            }
            i = i + 1;
        }
        None
    }

    /// Interns `text`: returns the handle it already has, or appends it and
    /// returns the fresh handle. Exactly the model [`spec_intern`].
    pub fn intern(&mut self, text: &Vec<u8>) -> (s: Symbol)
        requires
            old(self).wf(),
            old(self)@.len() < u32::MAX,
        ensures
            final(self).wf(),
            final(self)@ == spec_intern(old(self)@, text@).0,
            s.id() as int == spec_intern(old(self)@, text@).1,
            0 <= s.id() < final(self)@.len(),
            final(self)@[s.id() as int] == text@,
    {
        proof {
            lemma_find_from_props(self@, text@, 0);
        }
        match self.find(text) {
            Some(i) => Symbol(i as u32),
            None => {
                let id = self.strings.len();
                let mut copy: Vec<u8> = Vec::new();
                let mut k: usize = 0;
                while k < text.len()
                    invariant
                        k <= text@.len(),
                        copy@ == text@.subrange(0, k as int),
                    decreases text@.len() - k,
                {
                    copy.push(text[k]);
                    proof {
                        assert(copy@ =~= text@.subrange(0, k + 1));
                    }
                    k = k + 1;
                }
                proof {
                    assert(copy@ =~= text@);
                }
                self.strings.push(copy);
                proof {
                    assert(self@ =~= spec_intern(old(self)@, text@).0);
                }
                Symbol(id as u32)
            },
        }
    }

    /// Recovers the content that a handle was given for. Relies on the
    /// handle having come from this table.
    pub fn lookup(&self, id: u32) -> (r: &Vec<u8>)
        requires
            id < self@.len(),
        ensures
            r@ == self@[id as int],
    {
        &self.strings[id as usize]
    }

    /// Recovers the content of a handle from this table; what
    /// [`Interner::intern`] promises of the handle it returned makes the
    /// precondition available to every caller.
    pub fn content(&self, s: Symbol) -> (r: &Vec<u8>)
        requires
            s.id() < self@.len(),
        ensures
            r@ == self@[s.id() as int],
    {
        self.lookup(s.0)
    }
}

impl Symbol {
    /// The handle's number: the count of distinct contents interned before
    /// its own, starting at zero.
    pub closed spec fn id(&self) -> u32 {
        self.0
    }

    /// The handle of the empty content in `table`.
    pub fn dummy(table: &mut Interner) -> (s: Symbol)
        requires
            old(table).wf(),
            old(table)@.len() < u32::MAX,
        ensures
            final(table).wf(),
            final(table)@ == spec_intern(old(table)@, Seq::<u8>::empty()).0,
            s.id() as int == spec_intern(old(table)@, Seq::<u8>::empty()).1,
    {
        let empty: Vec<u8> = Vec::new();
        proof {
            assert(empty@ =~= Seq::<u8>::empty());
        }
        Symbol::intern(table, &empty)
    }

    /// Interns `text` into `table`; see [`Interner::intern`].
    pub fn intern(table: &mut Interner, text: &Vec<u8>) -> (s: Symbol)
        requires
            old(table).wf(),
            old(table)@.len() < u32::MAX,
        ensures
            final(table).wf(),
            final(table)@ == spec_intern(old(table)@, text@).0,
            s.id() as int == spec_intern(old(table)@, text@).1,
            0 <= s.id() < final(table)@.len(),
            final(table)@[s.id() as int] == text@,
    {
        table.intern(text)
    }

    /// Reads the handle's content as a textual 32-bit signed integer: its
    /// value when the content is an optional single `+` or `-` sign
    /// followed by a nonempty run of digits naming a value in range, and
    /// nothing otherwise.
    #[verifier::loop_isolation(false)]
    pub fn parse(&self, table: &Interner) -> (r: Option<i32>)
        requires
            self.id() < table@.len(),
        ensures
            (match r {
                Some(n) => {
                    let s = table@[self.id() as int];
                    is_numeral(s) && i32::MIN <= numeral_value(s) <= i32::MAX && n as int
                        == numeral_value(s)
                },
                None => {
                    let s = table@[self.id() as int];
                    !(is_numeral(s) && i32::MIN <= numeral_value(s) <= i32::MAX)
                },
            }),
    {
        let content = table.lookup(self.0);
        let ghost s = content@;
        let n = content.len();
        if n == 0 {
            return None;
        }
        let c0 = content[0];
        let neg = c0 == 45;
        let start: usize = if c0 == 45 || c0 == 43 {
            1
        } else {
            0
        };
        if n == start {
            return None;
        }
        let ghost body = numeral_body(s);
        proof {
            assert(body =~= s.subrange(start as int, n as int));
        }
        let mut k: usize = start;
        while k < n
            invariant
                start <= k <= n,
                n == content@.len(),
                content@ == s,
                forall|j: int| start <= j < k ==> is_digit_byte(#[trigger] s[j]),
            decreases n - k,
        {
            let c = content[k];
            if c < 48 || c > 57 {
                proof {
                    assert(body[k - start] == s[k as int]);
                    assert(!all_digits(body));
                }
                return None;
            }
            k = k + 1;
        }
        proof {
            assert forall|j: int| 0 <= j < body.len() implies is_digit_byte(
                #[trigger] body[j],
            ) by {
                assert(body[j] == s[start + j]);
            }
            lemma_digits_value_nonneg(body);
        }
        let limit: u32 = if neg {
            2147483648
        } else {
            2147483647
        };
        let mut acc: u32 = 0;
        let mut i: usize = start;
        while i < n
            invariant
                start <= i <= n,
                n == content@.len(),
                content@ == s,
                body == numeral_body(s),
                body =~= s.subrange(start as int, n as int),
                all_digits(body),
                neg == (s.len() >= 1 && s[0] == 45),
                limit as int == (if neg {
                    2147483648int
                } else {
                    2147483647int
                }),
                acc as int == digits_value(s.subrange(start as int, i as int)),
                acc <= limit,
            decreases n - i,
        {
            proof {
                assert(s.subrange(start as int, i + 1).drop_last() =~= s.subrange(
                    start as int,
                    i as int,
                ));
                assert(s.subrange(start as int, i + 1).last() == s[i as int]);
                assert(s[i as int] == body[i - start]);
                assert(body.subrange(0, i + 1 - start) =~= s.subrange(start as int, i + 1));
                lemma_digits_value_prefix(body, i + 1 - start);
            }
            let d = (content[i] - 48) as u32;
            let m = match acc.checked_mul(10) {
                Some(m) => m,
                None => {
                    return None;
                },
            };
            let v = match m.checked_add(d) {
                Some(v) => v,
                None => {
                    return None;
                },
            };
            if v > limit {
                return None;
            }
            acc = v;
            i = i + 1;
        }
        proof {
            assert(s.subrange(start as int, n as int) =~= body);
        }
        if neg {
            if acc == 2147483648 {
                Some(i32::MIN)
            } else {
                Some(0 - (acc as i32))
            }
        } else {
            Some(acc as i32)
        }
    }
}

/// Byte-for-byte equality of two byte strings.
fn bytes_eq(a: &Vec<u8>, b: &Vec<u8>) -> (r: bool)
    ensures
        r == (a@ == b@),
{
    if a.len() != b.len() {
        return false;
    }
    let mut i: usize = 0;
    while i < a.len()
        invariant
            i <= a@.len(),
            a@.len() == b@.len(),
            forall|k: int| 0 <= k < i ==> a@[k] == b@[k],
        decreases a@.len() - i,
    {
        if a[i] != b[i] {
            return false;
        }
        i = i + 1;
    }
    proof {
        assert(a@ =~= b@);
    }
    true
}

} // verus!
