//! Filename sanitizing: maps a server-supplied name to a filesystem-safe
//! name. The mapping is total and deterministic; collisions are the
//! caller's problem.

use vstd::prelude::*;

verus! {

/// Bytes that may not occur in a safe filename: `< > : " / \ | ? *`.
pub open spec fn is_invalid_byte(b: u8) -> bool {
    b == 60 || b == 62 || b == 58 || b == 34 || b == 47 || b == 92 || b == 124 || b == 63 || b == 42
}

/// A byte that is trimmed from the end of a name: `.` or space.
pub open spec fn is_trimmed_byte(b: u8) -> bool {
    b == 46 || b == 32
}

/// Each invalid byte replaced by `_`.
pub open spec fn replace_invalid(s: Seq<u8>) -> Seq<u8> {
    s.map_values(|b: u8| if is_invalid_byte(b) { 95u8 } else { b })
}

/// The name with trailing `.` and space bytes removed.
pub open spec fn trim_trailing(s: Seq<u8>) -> Seq<u8>
    decreases s.len(),
{
    if s.len() > 0 && is_trimmed_byte(s.last()) {
        trim_trailing(s.drop_last())
    } else {
        s
    }
}

/// ASCII uppercasing of one byte.
pub open spec fn upper_byte(b: u8) -> u8 {
    if 97 <= b <= 122 {
        (b - 32) as u8
    } else {
        b
    }
}

/// ASCII uppercasing of a byte string.
pub open spec fn upper(s: Seq<u8>) -> Seq<u8> {
    s.map_values(|b: u8| upper_byte(b))
}

/// A reserved device stem, already uppercased:
/// `CON`, `PRN`, `AUX`, `NUL`, `COM1`..`COM9`, `LPT1`..`LPT9`.
pub open spec fn is_reserved_stem(u: Seq<u8>) -> bool {
    ||| u == seq![67u8, 79u8, 78u8]
    ||| u == seq![80u8, 82u8, 78u8]
    ||| u == seq![65u8, 85u8, 88u8]
    ||| u == seq![78u8, 85u8, 76u8]
    ||| (u.len() == 4 && u.take(3) == seq![67u8, 79u8, 77u8] && 49 <= u[3] <= 57)
    ||| (u.len() == 4 && u.take(3) == seq![76u8, 80u8, 84u8] && 49 <= u[3] <= 57)
}

/// True iff the uppercased name equals a reserved stem or begins with a
/// reserved stem followed by `.`.
pub open spec fn is_reserved(s: Seq<u8>) -> bool {
    let u = upper(s);
    ||| is_reserved_stem(u)
    ||| (u.len() >= 4 && is_reserved_stem(u.take(3)) && u[3] == 46)
    ||| (u.len() >= 5 && is_reserved_stem(u.take(4)) && u[4] == 46)
}

/// The sanitized name before the final truncation to 255 bytes.
pub open spec fn sanitize_pre(s: Seq<u8>) -> Seq<u8> {
    let a = replace_invalid(s);
    let b = trim_trailing(a);
    let c = if b.len() == 0 {
        seq![95u8]
    } else {
        b
    };
    if is_reserved(c) {
        seq![95u8] + c
    } else {
        c
    }
}

/// The sanitized name: replace invalid bytes, trim trailing `.` and space,
/// replace an empty result with `_`, prefix a reserved name with `_`, and
/// truncate to 255 bytes.
pub open spec fn sanitize_spec(s: Seq<u8>) -> Seq<u8> {
    let d = sanitize_pre(s);
    if d.len() <= 255 {
        d
    } else {
        d.take(255)
    }
}

/// The uppercased byte at position `i`.
fn upper_at(s: &Vec<u8>, i: usize) -> (r: u8)
    requires
        i < s@.len(),
    ensures
        r == upper(s@)[i as int],
{
    let b = s[i];
    if 97 <= b && b <= 122 {
        b - 32
    } else {
        b
    }
}

/// Whether the uppercased name has the reserved stem of length `n` (3 or 4)
/// as its prefix of that length.
fn has_reserved_stem_at(s: &Vec<u8>, n: usize) -> (r: bool)
    requires
        n == 3 || n == 4,
        n <= s@.len(),
    ensures
        r == is_reserved_stem(upper(s@).take(n as int)),
{
    let u0 = upper_at(s, 0);
    let u1 = upper_at(s, 1);
    let u2 = upper_at(s, 2);
    proof {
        assert(upper(s@).take(n as int).take(3) =~= upper(s@).take(3));
    }
    if n == 3 {
        let r = (u0 == 67 && u1 == 79 && u2 == 78) || (u0 == 80 && u1 == 82 && u2 == 78) || (u0
            == 65 && u1 == 85 && u2 == 88) || (u0 == 78 && u1 == 85 && u2 == 76);
        proof {
            let t = upper(s@).take(3);
            assert(t.len() == 3 && t[0] == u0 && t[1] == u1 && t[2] == u2);
            assert(r ==> (t =~= seq![67u8, 79u8, 78u8] || t =~= seq![80u8, 82u8, 78u8] || t
                =~= seq![65u8, 85u8, 88u8] || t =~= seq![78u8, 85u8, 76u8]));
            assert(!r ==> !(t == seq![67u8, 79u8, 78u8]) && !(t == seq![80u8, 82u8, 78u8]) && !(t
                == seq![65u8, 85u8, 88u8]) && !(t == seq![78u8, 85u8, 76u8]));
        }
        r
    } else {
        let u3 = upper_at(s, 3);
        let stem = (u0 == 67 && u1 == 79 && u2 == 77) || (u0 == 76 && u1 == 80 && u2 == 84);
        let r = stem && 49 <= u3 && u3 <= 57;
        proof {
            let t = upper(s@).take(4);
            assert(t.len() == 4 && t[0] == u0 && t[1] == u1 && t[2] == u2 && t[3] == u3);
            assert(t.take(3) =~= upper(s@).take(3));
            assert(stem ==> (t.take(3) =~= seq![67u8, 79u8, 77u8] || t.take(3) =~= seq![76u8, 80u8,
                84u8]));
            assert(!stem ==> !(t.take(3) == seq![67u8, 79u8, 77u8]) && !(t.take(3) == seq![76u8,
                80u8, 84u8]));
            assert(t.len() != 3 && !(t == seq![67u8, 79u8, 78u8]) && !(t == seq![80u8, 82u8, 78u8])
                && !(t == seq![65u8, 85u8, 88u8]) && !(t == seq![78u8, 85u8, 76u8]));
        }
        r
    }
}

/// Whether the name is a Windows-reserved device name, or such a name
/// followed by an extension.
pub fn is_reserved_name(s: &Vec<u8>) -> (r: bool)
    ensures
        r == is_reserved(s@),
{
    let n = s.len();
    proof {
        assert(upper(s@).len() == s@.len());
        if n >= 3 {
            assert(upper(s@).take(3) =~= upper(s@) || n != 3);
            if n == 3 {
                assert(upper(s@).take(3) =~= upper(s@));
            }
            if n == 4 {
                assert(upper(s@).take(4) =~= upper(s@));
            }
        }
    }
    if n < 3 {
        proof {
            let u = upper(s@);
            assert(u.len() < 3);
            assert(!is_reserved(s@));
        }
        return false;
    }
    let stem3 = has_reserved_stem_at(s, 3);
    let exact3 = n == 3 && stem3;
    let dot3 = n >= 4 && stem3 && upper_at(s, 3) == 46;
    let stem4 = if n >= 4 {
        has_reserved_stem_at(s, 4)
    } else {
        false
    };
    let exact4 = n == 4 && stem4;
    let dot4 = n >= 5 && stem4 && upper_at(s, 4) == 46;
    proof {
        let u = upper(s@);
        if n == 3 {
            assert(is_reserved_stem(u) == stem3);
        } else if n == 4 {
            assert(is_reserved_stem(u) == stem4);
        } else {
            assert(u.len() != 3 && u.len() != 4);
            assert(!is_reserved_stem(u));
        }
        if n < 4 {
            assert(!(u.len() >= 4));
        }
        if n < 5 {
            assert(!(u.len() >= 5));
        }
    }
    exact3 || exact4 || dot3 || dot4
}

/// Maps a server-supplied name to a filesystem-safe name: replaces each of
/// `< > : " / \ | ? *` with `_`, trims trailing dots and spaces, replaces an
/// empty result with `_`, prefixes Windows-reserved names with `_`, and
/// truncates to 255 bytes.
pub fn sanitize_filename(name: &[u8]) -> (r: Vec<u8>)
    ensures
        r@ == sanitize_spec(name@),
{
    let mut safe: Vec<u8> = Vec::new();
    let mut i: usize = 0;
    while i < name.len()
        invariant
            i <= name@.len(),
            safe@ == replace_invalid(name@.take(i as int)),
        decreases name@.len() - i,
    {
        let b = name[i];
        let c = if b == 60 || b == 62 || b == 58 || b == 34 || b == 47 || b == 92 || b == 124 || b
            == 63 || b == 42 {
            95
        } else {
            b
        };
        safe.push(c);
        proof {
            assert(replace_invalid(name@.take(i + 1 as int)) =~= replace_invalid(
                name@.take(i as int),
            ).push(c));
        }
        i = i + 1;
    }
    proof {
        assert(name@.take(name@.len() as int) =~= name@);
    }
    let ghost a = safe@;
    loop
        invariant_except_break
            trim_trailing(safe@) == trim_trailing(a),
        ensures
            trim_trailing(safe@) == trim_trailing(a),
            safe@.len() == 0 || !is_trimmed_byte(safe@.last()),
        decreases safe@.len(),
    {
        if safe.len() == 0 {
            break ;
        }
        let last = safe[safe.len() - 1];
        if last != 46 && last != 32 {
            break ;
        }
        safe.pop();
    }
    proof {
        assert(trim_trailing(safe@) == safe@);
    }
    if safe.len() == 0 {
        safe.push(95);
        proof {
            assert(safe@ =~= seq![95u8]);
        }
    }
    let ghost c = safe@;
    if is_reserved_name(&safe) {
        safe.insert(0, 95);
        proof {
            assert(safe@ =~= seq![95u8] + c);
        }
    }
    if safe.len() > 255 {
        safe.truncate(255);
    }
    proof {
        assert(safe@ =~= sanitize_spec(name@));
    }
    safe
}

/// Trimming only removes bytes from the end, leaves a prefix, and the
/// result has no trailing trimmed byte.
proof fn lemma_trim_props(s: Seq<u8>)
    ensures
        trim_trailing(s).len() <= s.len(),
        trim_trailing(s) == s.take(trim_trailing(s).len() as int),
        trim_trailing(s).len() > 0 ==> !is_trimmed_byte(trim_trailing(s).last()),
    decreases s.len(),
{
    if s.len() > 0 && is_trimmed_byte(s.last()) {
        lemma_trim_props(s.drop_last());
        assert(s.drop_last() =~= s.take(s.len() - 1));
        assert(s.drop_last().take(trim_trailing(s).len() as int) =~= s.take(
            trim_trailing(s).len() as int,
        ));
    } else {
        assert(s.take(s.len() as int) =~= s);
    }
}

/// A reserved stem is 3 or 4 bytes long and starts with one of the letters
/// `C`, `P`, `A`, `N`, `L`.
proof fn lemma_stem_shape(u: Seq<u8>)
    requires
        is_reserved_stem(u),
    ensures
        u.len() == 3 || u.len() == 4,
        u[0] == 67 || u[0] == 80 || u[0] == 65 || u[0] == 78 || u[0] == 76,
{
    if u == seq![67u8, 79u8, 78u8] || u == seq![80u8, 82u8, 78u8] || u == seq![65u8, 85u8, 88u8]
        || u == seq![78u8, 85u8, 76u8] {
    } else {
        assert(u.take(3)[0] == u[0]);
    }
}

/// What holds of every sanitized name before truncation: it is non-empty,
/// has no invalid byte, does not end in `.` or space, and is not reserved.
pub proof fn lemma_sanitize_pre_facts(s: Seq<u8>)
    ensures
        sanitize_pre(s).len() >= 1,
        forall|i: int|
            0 <= i < sanitize_pre(s).len() ==> !is_invalid_byte(#[trigger] sanitize_pre(s)[i]),
        !is_trimmed_byte(sanitize_pre(s).last()),
        !is_reserved(sanitize_pre(s)),
{
    let a = replace_invalid(s);
    let b = trim_trailing(a);
    lemma_trim_props(a);
    let c = if b.len() == 0 {
        seq![95u8]
    } else {
        b
    };
    let d = sanitize_pre(s);
    assert(forall|i: int| 0 <= i < a.len() ==> !is_invalid_byte(#[trigger] a[i]));
    assert(forall|i: int| 0 <= i < c.len() ==> !is_invalid_byte(#[trigger] c[i]));
    assert(!is_trimmed_byte(c.last()));
    if is_reserved(c) {
        assert(d == seq![95u8] + c);
        assert(d[0] == 95 && d.last() == c.last());
        let u = upper(d);
        assert(u[0] == 95);
        if is_reserved_stem(u) {
            lemma_stem_shape(u);
        }
        if u.len() >= 4 && is_reserved_stem(u.take(3)) {
            lemma_stem_shape(u.take(3));
            assert(u.take(3)[0] == u[0]);
        }
        if u.len() >= 5 && is_reserved_stem(u.take(4)) {
            lemma_stem_shape(u.take(4));
            assert(u.take(4)[0] == u[0]);
        }
        assert(!is_reserved(d));
    } else {
        assert(d == c);
    }
}

/// Sanitizer totality, size: for every input the sanitized name is
/// non-empty and at most 255 bytes.
pub proof fn lemma_sanitize_len(s: Seq<u8>)
    ensures
        1 <= sanitize_spec(s).len() <= 255,
{
    lemma_sanitize_pre_facts(s);
}

/// Sanitizer totality, contents: the sanitized name never holds one of the
/// invalid bytes `< > : " / \ | ? *`.
pub proof fn lemma_sanitize_no_invalid(s: Seq<u8>)
    ensures
        forall|i: int|
            0 <= i < sanitize_spec(s).len() ==> !is_invalid_byte(#[trigger] sanitize_spec(s)[i]),
{
    lemma_sanitize_pre_facts(s);
    assert(forall|i: int|
        0 <= i < sanitize_spec(s).len() ==> sanitize_spec(s)[i] == sanitize_pre(s)[i]);
}

/// Sanitizer totality, reserved names: the sanitized name is never a
/// Windows-reserved device name, nor such a name with an extension.
pub proof fn lemma_sanitize_not_reserved(s: Seq<u8>)
    ensures
        !is_reserved(sanitize_spec(s)),
{
    lemma_sanitize_pre_facts(s);
    let d = sanitize_pre(s);
    let r = sanitize_spec(s);
    if d.len() > 255 {
        let u = upper(d);
        let ur = upper(r);
        assert(ur =~= u.take(255));
        assert(ur.take(3) =~= u.take(3));
        assert(ur.take(4) =~= u.take(4));
        if is_reserved_stem(ur) {
            lemma_stem_shape(ur);
        }
        if ur.len() >= 4 && is_reserved_stem(ur.take(3)) && ur[3] == 46 {
            assert(u.len() >= 4 && is_reserved_stem(u.take(3)) && u[3] == 46);
            assert(is_reserved(d));
        }
        if ur.len() >= 5 && is_reserved_stem(ur.take(4)) && ur[4] == 46 {
            assert(u.len() >= 5 && is_reserved_stem(u.take(4)) && u[4] == 46);
            assert(is_reserved(d));
        }
        assert(!is_reserved(r));
    }
}

/// Sanitizer totality, trailing bytes: when the name needs no truncation,
/// the sanitized name does not end in `.` or space. (Truncation to 255
/// bytes can expose a trailing dot or space that an earlier pass trimmed
/// elsewhere; such inputs are excluded here.)
pub proof fn lemma_sanitize_no_trailing(s: Seq<u8>)
    requires
        sanitize_pre(s).len() <= 255,
    ensures
        !is_trimmed_byte(sanitize_spec(s).last()),
{
    lemma_sanitize_pre_facts(s);
}

/// Sanitizer idempotence: when the name needs no truncation, sanitizing a
/// sanitized name changes nothing.
pub proof fn lemma_sanitize_idempotent(s: Seq<u8>)
    requires
        sanitize_pre(s).len() <= 255,
    ensures
        sanitize_spec(sanitize_spec(s)) == sanitize_spec(s),
{
    lemma_sanitize_pre_facts(s);
    let r = sanitize_spec(s);
    assert(r == sanitize_pre(s));
    assert(replace_invalid(r) =~= r);
    assert(trim_trailing(r) == r);
    assert(sanitize_pre(r) == r);
}

} // verus!
