use vstd::prelude::*;

verus! {

/// Result of a three-way comparison of two keys.
#[derive(Clone, Copy, PartialEq, Eq, Structural, Debug)]
pub enum KeyOrder {
    Less,
    Equal,
    Greater,
}

/// Strict lexicographic order on character sequences, comparing
/// characters by code point; a proper prefix comes first.
pub open spec fn lex_lt(a: Seq<char>, b: Seq<char>) -> bool
    decreases a.len(),
{
    if b.len() == 0 {
        false
    } else if a.len() == 0 {
        true
    } else if a[0] != b[0] {
        a[0] < b[0]
    } else {
        lex_lt(a.skip(1), b.skip(1))
    }
}

pub proof fn lemma_lex_irrefl(a: Seq<char>)
    ensures
        !lex_lt(a, a),
    decreases a.len(),
{
    if a.len() > 0 {
        lemma_lex_irrefl(a.skip(1));
    }
}

pub proof fn lemma_lex_asym(a: Seq<char>, b: Seq<char>)
    requires
        lex_lt(a, b),
    ensures
        !lex_lt(b, a),
    decreases a.len(),
{
    if a.len() > 0 && b.len() > 0 && a[0] == b[0] {
        lemma_lex_asym(a.skip(1), b.skip(1));
    }
}

pub proof fn lemma_lex_connex(a: Seq<char>, b: Seq<char>)
    ensures
        lex_lt(a, b) || lex_lt(b, a) || a == b,
    decreases a.len(),
{
    if a.len() == 0 && b.len() == 0 {
        assert(a =~= b);
    } else if a.len() > 0 && b.len() > 0 && a[0] == b[0] {
        lemma_lex_connex(a.skip(1), b.skip(1));
        if !lex_lt(a, b) && !lex_lt(b, a) {
            assert(a.skip(1) =~= b.skip(1));
            assert forall|i: int| 0 <= i < a.len() implies a[i] == b[i] by {
                if i > 0 {
                    assert(a[i] == a.skip(1)[i - 1]);
                    assert(b[i] == b.skip(1)[i - 1]);
                }
            }
            assert(a =~= b);
        }
    }
}

pub proof fn lemma_lex_trans(a: Seq<char>, b: Seq<char>, c: Seq<char>)
    requires
        lex_lt(a, b),
        lex_lt(b, c),
    ensures
        lex_lt(a, c),
    decreases a.len(),
{
    if a.len() > 0 && b.len() > 0 && c.len() > 0 && a[0] == b[0] && b[0] == c[0] {
        lemma_lex_trans(a.skip(1), b.skip(1), c.skip(1));
    }
}

/// A strict difference at the first divergent position decides the order.
pub proof fn lemma_lex_at(a: Seq<char>, b: Seq<char>, i: int)
    requires
        0 <= i < a.len(),
        i < b.len(),
        forall|j: int| 0 <= j < i ==> a[j] == b[j],
        a[i] < b[i],
    ensures
        lex_lt(a, b),
    decreases i,
{
    if i > 0 {
        assert forall|j: int| 0 <= j < i - 1 implies a.skip(1)[j] == b.skip(1)[j] by {
            assert(a.skip(1)[j] == a[j + 1]);
            assert(b.skip(1)[j] == b[j + 1]);
        }
        assert(a.skip(1)[i - 1] == a[i]);
        assert(b.skip(1)[i - 1] == b[i]);
        lemma_lex_at(a.skip(1), b.skip(1), i - 1);
    }
}

/// A proper prefix comes strictly first.
pub proof fn lemma_lex_prefix(a: Seq<char>, b: Seq<char>)
    requires
        a.len() < b.len(),
        forall|j: int| 0 <= j < a.len() ==> a[j] == b[j],
    ensures
        lex_lt(a, b),
    decreases a.len(),
{
    if a.len() > 0 {
        assert forall|j: int| 0 <= j < a.len() - 1 implies a.skip(1)[j] == b.skip(1)[j] by {
            assert(a.skip(1)[j] == a[j + 1]);
            assert(b.skip(1)[j] == b[j + 1]);
        }
        lemma_lex_prefix(a.skip(1), b.skip(1));
    }
}

/// Three-way comparison of two strings under `lex_lt`.
pub fn str_cmp(a: &str, b: &str) -> (r: KeyOrder)
    ensures
        (r == KeyOrder::Less) <==> lex_lt(a@, b@),
        (r == KeyOrder::Equal) <==> a@ == b@,
        (r == KeyOrder::Greater) <==> lex_lt(b@, a@),
{
    let alen = a.unicode_len();
    let blen = b.unicode_len();
    let mut i: usize = 0;
    while i < alen && i < blen
        invariant
            i <= alen,
            i <= blen,
            alen == a@.len(),
            blen == b@.len(),
            forall|j: int| 0 <= j < i ==> a@[j] == b@[j],
        decreases alen - i,
    {
        let ca = a.get_char(i);
        let cb = b.get_char(i);
        if ca < cb {
            proof {
                lemma_lex_at(a@, b@, i as int);
                lemma_lex_asym(a@, b@);
            }
            return KeyOrder::Less;
        }
        if cb < ca {
            proof {
                lemma_lex_at(b@, a@, i as int);
                lemma_lex_asym(b@, a@);
            }
            return KeyOrder::Greater;
        }
        i += 1;
    }
    if alen == blen {
        proof {
            assert(a@ =~= b@);
            lemma_lex_irrefl(a@);
        }
        KeyOrder::Equal
    } else if alen < blen {
        proof {
            lemma_lex_prefix(a@, b@);
            lemma_lex_asym(a@, b@);
        }
        KeyOrder::Less
    } else {
        proof {
            lemma_lex_prefix(b@, a@);
            lemma_lex_asym(b@, a@);
        }
        KeyOrder::Greater
    }
}

/// The code point of `c` with an ASCII capital letter folded to lower case.
pub open spec fn fold_char(c: char) -> u32 {
    if 'A' <= c && c <= 'Z' {
        ((c as u32) + 32) as u32
    } else {
        c as u32
    }
}

/// The sequence of code points of `s`, ASCII capitals folded to lower case.
pub open spec fn fold_seq(s: Seq<char>) -> Seq<u32> {
    s.map_values(|c: char| fold_char(c))
}

/// Whether two strings agree up to ASCII letter case.
pub fn str_eq_ignore_ascii_case(a: &str, b: &str) -> (r: bool)
    ensures
        r == (fold_seq(a@) == fold_seq(b@)),
{
    let alen = a.unicode_len();
    let blen = b.unicode_len();
    if alen != blen {
        proof {
            assert(fold_seq(a@).len() != fold_seq(b@).len());
        }
        return false;
    }
    let mut i: usize = 0;
    while i < alen
        invariant
            i <= alen,
            alen == a@.len(),
            alen == b@.len(),
            forall|j: int| 0 <= j < i ==> fold_seq(a@)[j] == fold_seq(b@)[j],
        decreases alen - i,
    {
        let ca = a.get_char(i);
        let cb = b.get_char(i);
        let fa: u32 = if 'A' <= ca && ca <= 'Z' { ca as u32 + 32 } else { ca as u32 };
        let fb: u32 = if 'A' <= cb && cb <= 'Z' { cb as u32 + 32 } else { cb as u32 };
        if fa != fb {
            proof {
                assert(fold_seq(a@)[i as int] != fold_seq(b@)[i as int]);
            }
            return false;
        }
        i += 1;
    }
    proof {
        assert(fold_seq(a@) =~= fold_seq(b@));
    }
    true
}

/// How one character appears inside a quoted name: backslash, double
/// quote, newline, tab and carriage return are escaped with a
/// backslash; every other character stands as itself.
pub open spec fn quote_char(c: char) -> Seq<char> {
    if c == '\\' {
        seq!['\\', '\\']
    } else if c == '"' {
        seq!['\\', '"']
    } else if c == '\n' {
        seq!['\\', 'n']
    } else if c == '\t' {
        seq!['\\', 't']
    } else if c == '\r' {
        seq!['\\', 'r']
    } else {
        seq![c]
    }
}

/// The characters of `s`, each escaped for quoting.
pub open spec fn escape_seq(s: Seq<char>) -> Seq<char>
    decreases s.len(),
{
    if s.len() == 0 {
        Seq::empty()
    } else {
        quote_char(s[0]) + escape_seq(s.skip(1))
    }
}

/// A name surrounded by double quotes, its special characters escaped.
pub open spec fn quoted(s: Seq<char>) -> Seq<char> {
    seq!['"'] + escape_seq(s) + seq!['"']
}

proof fn lemma_escape_snoc(s: Seq<char>, c: char)
    ensures
        escape_seq(s.push(c)) == escape_seq(s) + quote_char(c),
    decreases s.len(),
{
    let t = s.push(c);
    if s.len() == 0 {
        assert(t[0] == c);
        assert(t.skip(1) =~= Seq::<char>::empty());
        assert(escape_seq(t.skip(1)) =~= Seq::<char>::empty());
        assert(escape_seq(s) =~= Seq::<char>::empty());
        assert(escape_seq(t) =~= quote_char(c) + escape_seq(t.skip(1)));
        assert(quote_char(c) + Seq::<char>::empty() =~= quote_char(c));
        assert(Seq::<char>::empty() + quote_char(c) =~= quote_char(c));
        assert(escape_seq(t) =~= escape_seq(s) + quote_char(c));
    } else {
        assert(t[0] == s[0]);
        assert(t.skip(1) =~= s.skip(1).push(c));
        lemma_escape_snoc(s.skip(1), c);
        assert(quote_char(t[0]) + (escape_seq(s.skip(1)) + quote_char(c)) =~= (quote_char(s[0])
            + escape_seq(s.skip(1))) + quote_char(c));
    }
}

/// Renders a name the way debug output does: in double quotes, with
/// backslash, quote, newline, tab and carriage return escaped.
pub fn quote_name(s: &str) -> (r: String)
    ensures
        r@ == quoted(s@),
{
    proof {
        reveal_strlit("\"");
        reveal_strlit("\\\\");
        reveal_strlit("\\\"");
        reveal_strlit("\\n");
        reveal_strlit("\\t");
        reveal_strlit("\\r");
    }
    let mut r = String::from_str("\"");
    let n = s.unicode_len();
    let mut i: usize = 0;
    proof {
        assert(s@.take(0) =~= Seq::<char>::empty());
        assert(r@ =~= seq!['"'] + escape_seq(s@.take(0)));
    }
    while i < n
        invariant
            n == s@.len(),
            i <= n,
            r@ == seq!['"'] + escape_seq(s@.take(i as int)),
        decreases n - i,
    {
        proof {
            reveal_strlit("\\\\");
            reveal_strlit("\\\"");
            reveal_strlit("\\n");
            reveal_strlit("\\t");
            reveal_strlit("\\r");
            assert(s@.take(i + 1) =~= s@.take(i as int).push(s@[i as int]));
            lemma_escape_snoc(s@.take(i as int), s@[i as int]);
        }
        let ghost before = r@;
        let c = s.get_char(i);
        if c == '\\' {
            r.append("\\\\");
            proof {
                assert(r@ =~= before + quote_char(c));
            }
        } else if c == '"' {
            r.append("\\\"");
            proof {
                assert(r@ =~= before + quote_char(c));
            }
        } else if c == '\n' {
            r.append("\\n");
            proof {
                assert(r@ =~= before + quote_char(c));
            }
        } else if c == '\t' {
            r.append("\\t");
            proof {
                assert(r@ =~= before + quote_char(c));
            }
        } else if c == '\r' {
            r.append("\\r");
            proof {
                assert(r@ =~= before + quote_char(c));
            }
        } else {
            let piece = s.substring_char(i, i + 1);
            proof {
                assert(piece@ =~= quote_char(c));
            }
            r.append(piece);
            proof {
                assert(r@ =~= before + quote_char(c));
            }
        }
        proof {
            assert(r@ =~= seq!['"'] + escape_seq(s@.take(i + 1)));
        }
        i += 1;
    }
    proof {
        assert(s@.take(n as int) =~= s@);
    }
    proof {
        reveal_strlit("\"");
    }
    r.append("\"");
    proof {
        assert(r@ =~= quoted(s@));
    }
    r
}

/// The decimal digit `d` as a character.
pub open spec fn digit_char(d: int) -> char {
    if d == 0 { '0' }
    else if d == 1 { '1' }
    else if d == 2 { '2' }
    else if d == 3 { '3' }
    else if d == 4 { '4' }
    else if d == 5 { '5' }
    else if d == 6 { '6' }
    else if d == 7 { '7' }
    else if d == 8 { '8' }
    else { '9' }
}

/// The decimal rendering of `n`, most significant digit first.
pub open spec fn dec_rep(n: nat) -> Seq<char>
    decreases n,
{
    if n < 10 {
        seq![digit_char(n as int)]
    } else {
        dec_rep(n / 10).push(digit_char((n % 10) as int))
    }
}

fn digit_str(d: u64) -> (s: &'static str)
    requires
        d < 10,
    ensures
        s@ =~= seq![digit_char(d as int)],
{
    proof {
        reveal_strlit("0");
        reveal_strlit("1");
        reveal_strlit("2");
        reveal_strlit("3");
        reveal_strlit("4");
        reveal_strlit("5");
        reveal_strlit("6");
        reveal_strlit("7");
        reveal_strlit("8");
        reveal_strlit("9");
    }
    if d == 0 { "0" }
    else if d == 1 { "1" }
    else if d == 2 { "2" }
    else if d == 3 { "3" }
    else if d == 4 { "4" }
    else if d == 5 { "5" }
    else if d == 6 { "6" }
    else if d == 7 { "7" }
    else if d == 8 { "8" }
    else { "9" }
}

/// Renders `n` in decimal.
pub fn u64_to_dec(n: u64) -> (s: String)
    ensures
        s@ == dec_rep(n as nat),
    decreases n,
{
    if n < 10 {
        let s = String::from_str(digit_str(n));
        proof {
            assert(s@ =~= dec_rep(n as nat));
        }
        s
    } else {
        let mut s = u64_to_dec(n / 10);
        s.append(digit_str(n % 10));
        proof {
            assert(s@ =~= dec_rep(n as nat));
        }
        s
    }
}

} // verus!
