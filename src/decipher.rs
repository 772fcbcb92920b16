use vstd::prelude::*;
use crate::text::{contains_lit, chars_of, string_of, sub_chars, occurs_at, find_from, contains_seq, occurs_at_exec, occurs_lit, find_exec};
use crate::numbers::{is_number, digits_value, parse_number, fits_u64};

verus! {

/// One primitive step of a signature transform.
#[derive(Clone, Copy, Debug, PartialEq, Eq, Structural)]
pub enum CipherOp {
    /// Reverse the characters.
    Reverse,
    /// Exchange the first character with the one at the index modulo the length.
    Swap(u64),
    /// Drop that many characters from the front.
    Splice(u64),
}

/// The characters of `s` in reverse order.
pub open spec fn reversed(s: Seq<char>) -> Seq<char> {
    Seq::new(s.len(), |i: int| s[s.len() - 1 - i])
}

/// What one step does to a signature.
pub open spec fn apply_op(s: Seq<char>, op: CipherOp) -> Seq<char> {
    match op {
        CipherOp::Reverse => reversed(s),
        CipherOp::Swap(b) => if s.len() == 0 {
            s
        } else {
            let k = (b as int) % (s.len() as int);
            s.update(0, s[k]).update(k, s[0])
        },
        CipherOp::Splice(b) => if b >= s.len() {
            Seq::empty()
        } else {
            s.subrange(b as int, s.len() as int)
        },
    }
}

/// What the steps, taken in order, do to a signature.
pub open spec fn apply_ops(s: Seq<char>, ops: Seq<CipherOp>) -> Seq<char>
    decreases ops.len(),
{
    if ops.len() == 0 {
        s
    } else {
        apply_ops(apply_op(s, ops[0]), ops.drop_first())
    }
}

fn apply_op_exec(s: Vec<char>, op: CipherOp) -> (r: Vec<char>)
    ensures
        r@ == apply_op(s@, op),
{
    match op {
        CipherOp::Reverse => {
            let mut r: Vec<char> = Vec::new();
            let mut i = s.len();
            while i > 0
                invariant
                    i <= s@.len(),
                    r@.len() == s@.len() - i,
                    forall|m: int| 0 <= m < r@.len() ==> r@[m] == s@[s@.len() - 1 - m],
                decreases i,
            {
                i = i - 1;
                r.push(s[i]);
            }
            assert(r@ =~= reversed(s@));
            r
        },
        CipherOp::Swap(b) => {
            if s.len() == 0 {
                return s;
            }
            let mut r = s;
            let k = (b % (r.len() as u64)) as usize;
            let first = r[0];
            let other = r[k];
            r.set(0, other);
            r.set(k, first);
            r
        },
        CipherOp::Splice(b) => {
            if b >= s.len() as u64 {
                return Vec::new();
            }
            sub_chars(&s, b as usize, s.len())
        },
    }
}

/// Applies the steps of a signature transform, in order, to a signature.
pub fn decipher_signature(sig: &str, ops: &Vec<CipherOp>) -> (r: String)
    ensures
        r@ == apply_ops(sig@, ops@),
{
    let mut cur = chars_of(sig);
    let mut i: usize = 0;
    assert(ops@.skip(0) =~= ops@);
    while i < ops.len()
        invariant
            i <= ops@.len(),
            apply_ops(sig@, ops@) == apply_ops(cur@, ops@.skip(i as int)),
        decreases ops@.len() - i,
    {
        assert(ops@.skip(i as int).drop_first() =~= ops@.skip(i + 1));
        cur = apply_op_exec(cur, ops[i]);
        i = i + 1;
    }
    string_of(cur.as_slice())
}

/// A character of a script identifier.
pub open spec fn is_ident_char(c: char) -> bool {
    ('a' <= c && c <= 'z') || ('A' <= c && c <= 'Z') || ('0' <= c && c <= '9') || c == '$' || c
        == '_'
}

/// The first index at or after `i` that does not hold an identifier character.
pub open spec fn ident_end(s: Seq<char>, i: int) -> int
    decreases s.len() - i,
{
    if i < 0 || i >= s.len() || !is_ident_char(s[i]) {
        i
    } else {
        ident_end(s, i + 1)
    }
}

/// The first index at or after `i` where the member definition `pat` starts, not
/// preceded by an identifier character.
pub open spec fn member_from(h: Seq<char>, pat: Seq<char>, i: int) -> Option<int>
    decreases h.len() + 1 - i,
{
    if i < 0 || i + pat.len() > h.len() {
        None
    } else if occurs_at(h, i, pat) && (i == 0 || !is_ident_char(h[i - 1])) {
        Some(i)
    } else {
        member_from(h, pat, i + 1)
    }
}

/// The step that a member's function body performs, recognised by its shape.
pub open spec fn body_op(body: Seq<char>, n: u64) -> Option<CipherOp> {
    if contains_seq(body, "reverse"@) {
        Some(CipherOp::Reverse)
    } else if contains_seq(body, "splice"@) || contains_seq(body, "slice"@) {
        Some(CipherOp::Splice(n))
    } else if contains_seq(body, "a[0]"@) {
        Some(CipherOp::Swap(n))
    } else {
        None
    }
}

/// The step that member `name` of the helper object `h` performs with argument `n`.
pub open spec fn member_op(h: Seq<char>, name: Seq<char>, n: u64) -> Option<CipherOp> {
    match member_from(h, name + ":function"@, 0) {
        Some(k) => match find_from(h, "}"@, k) {
            Some(e) => body_op(h.subrange(k, e), n),
            None => None,
        },
        None => None,
    }
}

/// Where the member name of a call `st` starts and ends, and where its arguments start.
pub open spec fn call_name(st: Seq<char>) -> Option<(int, int, int)> {
    let b = if occurs_at(st, 0, "a="@) {
        2int
    } else {
        0int
    };
    let oe = ident_end(st, b);
    if occurs_at(st, oe, "."@) {
        let ne = ident_end(st, oe + 1);
        Some((oe + 1, ne, ne))
    } else if occurs_at(st, oe, "[\""@) {
        let ne = ident_end(st, oe + 2);
        if occurs_at(st, ne, "\"]"@) {
            Some((oe + 2, ne, ne + 2))
        } else {
            None
        }
    } else {
        None
    }
}

/// The step that one call statement `st` performs, such as `Xy.ab(a,3)`.
pub open spec fn call_op(st: Seq<char>, h: Seq<char>) -> Option<CipherOp> {
    match call_name(st) {
        Some((ns, ne, ap)) => if occurs_at(st, ap, "(a,"@) && ap + 3 < st.len() && st.last() == ')'
            && fits_u64(st.subrange(ap + 3, st.len() - 1)) {
            member_op(
                h,
                st.subrange(ns, ne),
                digits_value(st.subrange(ap + 3, st.len() - 1)) as u64,
            )
        } else {
            None
        },
        None => None,
    }
}

/// The steps of the `;`-ended call statements of `s` from index `p` on.
pub open spec fn calls_ops(s: Seq<char>, h: Seq<char>, p: int) -> Option<Seq<CipherOp>>
    decreases s.len() - p,
{
    if p < 0 || p >= s.len() {
        Some(Seq::empty())
    } else {
        match find_from(s, ";"@, p) {
            Some(e) => if e < p || e >= s.len() {
                None
            } else {
                match call_op(s.subrange(p, e), h) {
                    Some(op) => match calls_ops(s, h, e + 1) {
                        Some(rest) => Some(seq![op] + rest),
                        None => None,
                    },
                    None => None,
                }
            },
            None => None,
        }
    }
}

/// The name of the helper object that the calls use.
pub open spec fn helper_name(calls: Seq<char>) -> Seq<char> {
    let b = if occurs_at(calls, 0, "a="@) {
        2int
    } else {
        0int
    };
    calls.subrange(b, ident_end(calls, b))
}

/// The transform that a player script applies to signatures: the calls between
/// `a=a.split("");` and `return a.join("")`, each resolved in the helper object
/// that the script declares as `var <name>={...};`.
pub open spec fn script_ops(script: Seq<char>) -> Option<Seq<CipherOp>> {
    match find_from(script, "a=a.split(\"\");"@, 0) {
        Some(p) => {
            let start = p + "a=a.split(\"\");"@.len();
            match find_from(script, "return a.join(\"\")"@, start) {
                Some(q) => {
                    let calls = script.subrange(start, q);
                    let obj = helper_name(calls);
                    if obj.len() == 0 {
                        None
                    } else {
                        let decl = "var "@ + obj + "={"@;
                        match find_from(script, decl, 0) {
                            Some(d) => {
                                let hs = d + decl.len();
                                match find_from(script, "};"@, hs) {
                                    Some(he) => calls_ops(calls, script.subrange(hs, he), 0),
                                    None => None,
                                }
                            },
                            None => None,
                        }
                    }
                },
                None => None,
            }
        },
        None => None,
    }
}

fn is_ident_char_exec(c: char) -> (r: bool)
    ensures
        r == is_ident_char(c),
{
    ('a' <= c && c <= 'z') || ('A' <= c && c <= 'Z') || ('0' <= c && c <= '9') || c == '$' || c
        == '_'
}

fn ident_end_exec(s: &Vec<char>, i: usize) -> (r: usize)
    requires
        i <= s@.len(),
    ensures
        r as int == ident_end(s@, i as int),
        i <= r <= s@.len(),
{
    let mut k = i;
    while k < s.len() && is_ident_char_exec(s[k])
        invariant
            i <= k <= s@.len(),
            ident_end(s@, i as int) == ident_end(s@, k as int),
        decreases s@.len() - k,
    {
        k = k + 1;
    }
    k
}

fn concat(a: &Vec<char>, b: &Vec<char>) -> (r: Vec<char>)
    ensures
        r@ == a@ + b@,
{
    let mut r = sub_chars(a, 0, a.len());
    let mut c = sub_chars(b, 0, b.len());
    assert(a@.subrange(0, a@.len() as int) =~= a@);
    assert(b@.subrange(0, b@.len() as int) =~= b@);
    r.append(&mut c);
    r
}

fn member_from_exec(h: &Vec<char>, pat: &Vec<char>) -> (r: Option<usize>)
    ensures
        match r {
            Some(k) => member_from(h@, pat@, 0) == Some(k as int) && k <= h@.len(),
            None => member_from(h@, pat@, 0) is None,
        },
{
    if pat.len() > h.len() {
        return None;
    }
    if pat.len() == 0 {
        assert(h@.subrange(0, 0) =~= pat@);
        return Some(0);
    }
    let mut i: usize = 0;
    while i <= h.len() - pat.len()
        invariant
            1 <= pat@.len() <= h@.len(),
            member_from(h@, pat@, 0) == member_from(h@, pat@, i as int),
        decreases h@.len() - i,
    {
        if occurs_at_exec(h, i, pat) && (i == 0 || !is_ident_char_exec(h[i - 1])) {
            return Some(i);
        }
        i = i + 1;
    }
    None
}

fn body_op_exec(body: &Vec<char>, n: u64) -> (r: Option<CipherOp>)
    ensures
        r == body_op(body@, n),
{
    if contains_lit(body, "reverse") {
        Some(CipherOp::Reverse)
    } else if contains_lit(body, "splice") || contains_lit(body, "slice") {
        Some(CipherOp::Splice(n))
    } else if contains_lit(body, "a[0]") {
        Some(CipherOp::Swap(n))
    } else {
        None
    }
}

fn member_op_exec(h: &Vec<char>, name: &Vec<char>, n: u64) -> (r: Option<CipherOp>)
    ensures
        r == member_op(h@, name@, n),
{
    let pat = concat(name, &chars_of(":function"));
    match member_from_exec(h, &pat) {
        Some(k) => {
            let close = chars_of("}");
            match find_exec(h, &close, k) {
                Some(e) => {
                    let body = sub_chars(h, k, e);
                    body_op_exec(&body, n)
                },
                None => None,
            }
        },
        None => None,
    }
}

fn call_op_exec(st: &Vec<char>, h: &Vec<char>) -> (r: Option<CipherOp>)
    ensures
        r == call_op(st@, h@),
{
    let _n = st.len();
    let b: usize = if occurs_lit(st, 0, "a=") {
        2
    } else {
        0
    };
    proof {
        reveal_strlit("a=");
        reveal_strlit(".");
        reveal_strlit("[\"");
        reveal_strlit("\"]");
        reveal_strlit("(a,");
    }
    let b = if b > st.len() {
        st.len()
    } else {
        b
    };
    assert(b == if occurs_at(st@, 0, "a="@) {
        2int
    } else {
        0int
    });
    let oe = ident_end_exec(st, b);
    let (ns, ne, ap) = if occurs_lit(st, oe, ".") {
        let ne = ident_end_exec(st, oe + 1);
        (oe + 1, ne, ne)
    } else if occurs_lit(st, oe, "[\"") {
        let ne = ident_end_exec(st, oe + 2);
        if occurs_lit(st, ne, "\"]") {
            (oe + 2, ne, ne + 2)
        } else {
            return None;
        }
    } else {
        return None;
    };
    if !occurs_lit(st, ap, "(a,") || ap + 3 >= st.len() || st[st.len() - 1] != ')' {
        return None;
    }
    let digits = sub_chars(st, ap + 3, st.len() - 1);
    match parse_number(&digits) {
        Some(n) => {
            let name = sub_chars(st, ns, ne);
            member_op_exec(h, &name, n)
        },
        None => None,
    }
}

fn calls_ops_exec(s: &Vec<char>, h: &Vec<char>) -> (r: Option<Vec<CipherOp>>)
    ensures
        match r {
            Some(v) => calls_ops(s@, h@, 0) == Some(v@),
            None => calls_ops(s@, h@, 0) is None,
        },
{
    proof {
        reveal_strlit(";");
    }
    let semi = chars_of(";");
    let mut out: Vec<CipherOp> = Vec::new();
    let mut p: usize = 0;
    while p < s.len()
        invariant
            p <= s@.len(),
            semi@ == ";"@,
            semi@.len() == 1,
            calls_ops(s@, h@, 0) == match calls_ops(s@, h@, p as int) {
                Some(rest) => Some(out@ + rest),
                None => None::<Seq<CipherOp>>,
            },
        decreases s@.len() - p,
    {
        match find_exec(s, &semi, p) {
            Some(e) => {
                proof {
                    crate::text::lemma_find_from_bounds(s@, semi@, p as int);
                }
                let st = sub_chars(s, p, e);
                match call_op_exec(&st, h) {
                    Some(op) => {
                        proof {
                            match calls_ops(s@, h@, e + 1) {
                                Some(rest) => {
                                    assert(out@.push(op) + rest =~= out@ + (seq![op] + rest));
                                },
                                None => {},
                            }
                        }
                        out.push(op);
                        p = e + 1;
                    },
                    None => {
                        return None;
                    },
                }
            },
            None => {
                return None;
            },
        }
    }
    assert(out@ + Seq::<CipherOp>::empty() =~= out@);
    Some(out)
}

/// The signature transform that a player script defines, as a list of steps; `None`
/// when the script does not have the expected shape.
pub fn extract_transform(script: &str) -> (r: Option<Vec<CipherOp>>)
    ensures
        match r {
            Some(v) => script_ops(script@) == Some(v@),
            None => script_ops(script@) is None,
        },
{
    let s = chars_of(script);
    let _n = s.len();
    let split = chars_of("a=a.split(\"\");");
    let p = match find_exec(&s, &split, 0) {
        Some(p) => p,
        None => {
            return None;
        },
    };
    let start = p + split.len();
    let join = chars_of("return a.join(\"\")");
    let q = match find_exec(&s, &join, start) {
        Some(q) => q,
        None => {
            return None;
        },
    };
    proof {
        crate::text::lemma_find_from_bounds(s@, join@, start as int);
    }
    let calls = sub_chars(&s, start, q);
    proof {
        reveal_strlit("a=");
    }
    let b: usize = if occurs_lit(&calls, 0, "a=") {
        2
    } else {
        0
    };
    let b = if b > calls.len() {
        calls.len()
    } else {
        b
    };
    let oe = ident_end_exec(&calls, b);
    if oe == b {
        return None;
    }
    let obj = sub_chars(&calls, b, oe);
    let decl = concat(&concat(&chars_of("var "), &obj), &chars_of("={"));
    let d = match find_exec(&s, &decl, 0) {
        Some(d) => d,
        None => {
            return None;
        },
    };
    let hs = d + decl.len();
    let end = chars_of("};");
    let he = match find_exec(&s, &end, hs) {
        Some(he) => he,
        None => {
            return None;
        },
    };
    proof {
        crate::text::lemma_find_from_bounds(s@, end@, hs as int);
    }
    let helper = sub_chars(&s, hs, he);
    calls_ops_exec(&calls, &helper)
}

} // verus!
