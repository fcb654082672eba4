//! Deterministic naming: the 8-character calculator-safe image name, the
//! two-character variable prefix, and the container names derived from them.

use vstd::prelude::*;

verus! {

/// ASCII uppercase or lowercase letter.
pub open spec fn is_alpha_char(c: char) -> bool {
    (65 <= c as int && c as int <= 90) || (97 <= c as int && c as int <= 122)
}

/// ASCII decimal digit.
pub open spec fn is_digit_char(c: char) -> bool {
    48 <= c as int && c as int <= 57
}

/// ASCII letter or digit.
pub open spec fn is_alnum_char(c: char) -> bool {
    is_alpha_char(c) || is_digit_char(c)
}

/// A two-character, all-alphabetic ASCII variable prefix.
pub open spec fn valid_var_prefix(s: Seq<char>) -> bool {
    s.len() == 2 && is_alpha_char(s[0]) && is_alpha_char(s[1])
}

/// The ASCII bytes of a sequence of ASCII characters.
pub open spec fn bytes_as_chars(b: Seq<u8>) -> Seq<char> {
    Seq::new(b.len(), |i: int| b[i] as char)
}

/// The byte of each character of an ASCII string, in order.
pub open spec fn ascii_bytes(s: Seq<char>) -> Seq<u8> {
    Seq::new(s.len(), |i: int| s[i] as u8)
}

/// A character within the ASCII range.
pub open spec fn is_ascii_char(c: char) -> bool {
    (c as int) < 128
}

/// The input characters that survive filtering: ASCII alphanumerics, in order.
pub open spec fn filter_alnum(s: Seq<char>) -> Seq<char>
    decreases s.len(),
{
    if s.len() == 0 {
        Seq::empty()
    } else {
        let rest = filter_alnum(s.drop_last());
        if is_alnum_char(s.last()) {
            rest.push(s.last())
        } else {
            rest
        }
    }
}

/// Replace a non-alphabetic first character with 'Z'.
pub open spec fn fix_head(f: Seq<char>) -> Seq<char> {
    if f.len() == 0 {
        f
    } else if is_alpha_char(f[0]) {
        f
    } else {
        seq!['Z'] + f.skip(1)
    }
}

/// At most the first eight characters.
pub open spec fn head8(f: Seq<char>) -> Seq<char> {
    if f.len() >= 8 {
        f.take(8)
    } else {
        f
    }
}

/// Right-pad with '_' to exactly eight characters.
pub open spec fn pad8(f: Seq<char>) -> Seq<char> {
    head8(f) + Seq::new(if f.len() >= 8 {
        0
    } else {
        (8 - f.len()) as nat
    }, |i: int| '_')
}

/// What the name generator returns: filter to ASCII alphanumerics, force an
/// alphabetic head, take up to eight characters, pad with underscores.
pub open spec fn calc_name_spec(s: Seq<char>) -> Seq<char> {
    pad8(fix_head(filter_alnum(s)))
}

/// The characters a generated name is made of: ASCII letters, digits and the
/// '_' padding.
pub open spec fn valid_name_char(c: char) -> bool {
    is_alnum_char(c) || c == '_'
}

fn is_ascii_alpha(c: char) -> (b: bool)
    ensures
        b == is_alpha_char(c),
{
    let u = c as u32;
    (65 <= u && u <= 90) || (97 <= u && u <= 122)
}

fn is_ascii_alnum(c: char) -> (b: bool)
    ensures
        b == is_alnum_char(c),
{
    let u = c as u32;
    (65 <= u && u <= 90) || (97 <= u && u <= 122) || (48 <= u && u <= 57)
}

/// Relies on String::from_utf8: ASCII bytes decode to exactly those
/// characters, one per byte.
#[verifier::external_body]
fn ascii_string(bytes: Vec<u8>) -> (result: String)
    requires
        forall|i: int| 0 <= i < bytes@.len() ==> bytes@[i] < 128,
    ensures
        result@ == bytes_as_chars(bytes@),
{
    match String::from_utf8(bytes) {
        Ok(s) => s,
        Err(_) => String::new(),
    }
}

/// Step lemma: filtering one more input character appends it when it is
/// alphanumeric and changes nothing otherwise.
proof fn lemma_filter_alnum_step(s: Seq<char>, i: int)
    requires
        0 <= i < s.len(),
    ensures
        filter_alnum(s.take(i + 1)) == if is_alnum_char(s[i]) {
            filter_alnum(s.take(i)).push(s[i])
        } else {
            filter_alnum(s.take(i))
        },
{
    let t = s.take(i + 1);
    assert(t.drop_last() =~= s.take(i));
    assert(t.last() == s[i]);
}

/// Every character that survives the filter is alphanumeric.
proof fn lemma_filter_alnum_chars(s: Seq<char>)
    ensures
        forall|i: int| 0 <= i < filter_alnum(s).len() ==> is_alnum_char(#[trigger] filter_alnum(s)[i]),
    decreases s.len(),
{
    if s.len() > 0 {
        lemma_filter_alnum_chars(s.drop_last());
        let rest = filter_alnum(s.drop_last());
        if is_alnum_char(s.last()) {
            assert(filter_alnum(s) == rest.push(s.last()));
            assert forall|i: int| 0 <= i < filter_alnum(s).len() implies is_alnum_char(
                filter_alnum(s)[i],
            ) by {
                if i < rest.len() {
                    assert(filter_alnum(s)[i] == rest[i]);
                }
            }
        }
    }
}

/// Transform a string into one safe to use as a calculator variable name:
/// exactly eight characters, ASCII alphanumeric or '_', deterministically
/// derived from the input.
pub fn generate_calc_name(s: &str) -> (result: String)
    ensures
        result@ == calc_name_spec(s@),
{
    let n = s.unicode_len();
    let mut out: Vec<u8> = Vec::new();
    let mut i: usize = 0;
    proof {
        assert(s@.take(0) =~= Seq::<char>::empty());
    }
    while i < n
        invariant
            i <= n,
            n == s@.len(),
            out@.len() <= 8,
            forall|j: int| 0 <= j < out@.len() ==> out@[j] < 128,
            bytes_as_chars(out@) == head8(fix_head(filter_alnum(s@.take(i as int)))),
        decreases n - i,
    {
        let ghost prev = filter_alnum(s@.take(i as int));
        let c = s.get_char(i);
        proof {
            lemma_filter_alnum_step(s@, i as int);
        }
        if is_ascii_alnum(c) {
            let ghost cur = prev.push(c);
            if out.len() == 0 {
                proof {
                    assert(bytes_as_chars(out@).len() == out@.len());
                    assert(head8(fix_head(prev)).len() == 0);
                    assert(fix_head(prev).len() == 0 || fix_head(prev).len() == prev.len());
                    assert(prev.len() == 0);
                }
                if is_ascii_alpha(c) {
                    let u = c as u32;
                    out.push(u as u8);
                } else {
                    out.push(90u8);
                }
                proof {
                    assert(bytes_as_chars(out@) =~= head8(fix_head(cur)));
                }
            } else if out.len() < 8 {
                proof {
                    assert(bytes_as_chars(out@).len() == out@.len());
                    assert(head8(fix_head(prev)).len() == out@.len());
                    assert(fix_head(prev).len() == prev.len());
                    assert(fix_head(prev).len() < 8);
                    assert(head8(fix_head(prev)) == fix_head(prev));
                    assert(fix_head(cur) =~= fix_head(prev).push(c));
                }
                let u = c as u32;
                out.push(u as u8);
                proof {
                    assert(bytes_as_chars(out@) =~= head8(fix_head(cur)));
                }
            } else {
                proof {
                    assert(bytes_as_chars(out@).len() == out@.len());
                    assert(head8(fix_head(prev)).len() == 8);
                    assert(fix_head(prev).len() >= 8);
                    assert(fix_head(cur) =~= fix_head(prev).push(c));
                    assert(head8(fix_head(cur)) =~= head8(fix_head(prev)));
                }
            }
        }
        i = i + 1;
    }
    proof {
        assert(s@.take(n as int) =~= s@);
    }
    while out.len() < 8
        invariant
            out@.len() <= 8,
            forall|j: int| 0 <= j < out@.len() ==> out@[j] < 128,
            bytes_as_chars(out@) =~= head8(fix_head(filter_alnum(s@))) + Seq::new(
                (out@.len() - head8(fix_head(filter_alnum(s@))).len()) as nat,
                |i: int| '_',
            ),
        decreases 8 - out.len(),
    {
        let ghost pre = out@;
        out.push(95u8);
        proof {
            let h = head8(fix_head(filter_alnum(s@)));
            assert(bytes_as_chars(pre).len() == pre.len());
            assert(pre.len() >= h.len());
            assert(out@ == pre.push(95u8));
            assert((95u8) as char == '_');
            assert forall|j: int| 0 <= j < out@.len() implies bytes_as_chars(out@)[j] == (h
                + Seq::new((out@.len() - h.len()) as nat, |i: int| '_'))[j] by {
                if j < pre.len() {
                    assert(bytes_as_chars(pre)[j] == (h + Seq::new(
                        (pre.len() - h.len()) as nat,
                        |i: int| '_',
                    ))[j]);
                }
            }
            assert(bytes_as_chars(out@) =~= h + Seq::new(
                (out@.len() - h.len()) as nat,
                |i: int| '_',
            ));
        }
    }
    proof {
        assert(bytes_as_chars(out@) =~= calc_name_spec(s@));
    }
    ascii_string(out)
}

/// The decimal digits of a non-negative number, most significant first.
pub open spec fn decimal_digits(n: int) -> Seq<char>
    recommends
        n >= 0,
    decreases n,
{
    if n < 10 {
        seq![digit_char(n)]
    } else {
        decimal_digits(n / 10) + seq![digit_char(n % 10)]
    }
}

/// Append the decimal digits of a number.
fn push_decimal(out: &mut Vec<u8>, n: usize)
    ensures
        final(out)@ == old(out)@ + ascii_bytes(decimal_digits(n as int)),
        forall|j: int| old(out)@.len() <= j < final(out)@.len() ==> final(out)@[j] < 128,
    decreases n,
{
    if n >= 10 {
        push_decimal(out, n / 10);
    }
    let d = (n % 10) as u8;
    out.push(48 + d);
    proof {
        lemma_digit_char_byte(d as int);
        assert(out@ =~= old(out)@ + ascii_bytes(decimal_digits(n as int)));
    }
}

/// Every decimal digit character is an ASCII digit.
proof fn lemma_decimal_digits_ascii(n: int)
    ensures
        forall|i: int|
            0 <= i < decimal_digits(n).len() ==> is_digit_char(#[trigger] decimal_digits(n)[i]),
    decreases n,
{
    if n >= 10 {
        lemma_decimal_digits_ascii(n / 10);
        let a = decimal_digits(n / 10);
        assert forall|i: int| 0 <= i < decimal_digits(n).len() implies is_digit_char(
            decimal_digits(n)[i],
        ) by {
            if i < a.len() {
                assert(decimal_digits(n)[i] == a[i]);
            } else {
                assert(decimal_digits(n)[i] == digit_char(n % 10));
            }
        }
    }
}

/// The message a rejected variable prefix is reported with: the actual
/// character count when it is not two, else the position of the first
/// non-alphabetic character.
pub open spec fn prefix_err_msg(s: Seq<char>) -> Seq<char> {
    if s.len() != 2 {
        "var_prefix must be exactly two characters, but is "@ + decimal_digits(s.len() as int)
    } else if !is_alpha_char(s[0]) {
        "the character at var_prefix position 0 is not an alphabetic character"@
    } else {
        "the character at var_prefix position 1 is not an alphabetic character"@
    }
}

/// Validate a variable prefix: exactly two ASCII alphabetic characters.
///
/// A prefix that fails this check is rejected before any processing, with a
/// message naming the actual length or the first offending position.
pub fn var_prefix_str(s: &str) -> (result: Result<String, String>)
    ensures
        result is Ok <==> valid_var_prefix(s@),
        result matches Ok(p) ==> p@ == s@,
        result matches Err(m) ==> m@ == prefix_err_msg(s@),
{
    let n = s.unicode_len();
    if n != 2 {
        let mut digits: Vec<u8> = Vec::new();
        push_decimal(&mut digits, n);
        let mut msg = String::from_str("var_prefix must be exactly two characters, but is ");
        let tail = ascii_string(digits);
        msg.append(tail.as_str());
        proof {
            lemma_decimal_digits_ascii(n as int);
            assert(bytes_as_chars(ascii_bytes(decimal_digits(n as int))) =~= decimal_digits(
                n as int,
            ));
        }
        return Err(msg);
    }
    if !is_ascii_alpha(s.get_char(0)) {
        return Err(
            String::from_str("the character at var_prefix position 0 is not an alphabetic character"),
        );
    }
    if !is_ascii_alpha(s.get_char(1)) {
        return Err(
            String::from_str("the character at var_prefix position 1 is not an alphabetic character"),
        );
    }
    Ok(s.to_owned())
}

/// The character for one decimal digit.
pub open spec fn digit_char(d: int) -> char {
    if d == 0 {
        '0'
    } else if d == 1 {
        '1'
    } else if d == 2 {
        '2'
    } else if d == 3 {
        '3'
    } else if d == 4 {
        '4'
    } else if d == 5 {
        '5'
    } else if d == 6 {
        '6'
    } else if d == 7 {
        '7'
    } else if d == 8 {
        '8'
    } else {
        '9'
    }
}

/// Three zero-padded decimal digits.
pub open spec fn digits3(n: int) -> Seq<char> {
    seq![digit_char(n / 100 % 10), digit_char(n / 10 % 10), digit_char(n % 10)]
}

/// The name of the container holding one tile: prefix, then the zero-padded
/// three-digit tile column and row.
pub open spec fn tile_name_spec(prefix: Seq<char>, x: int, y: int) -> Seq<char> {
    prefix + digits3(x) + digits3(y)
}

/// The name of the palette container: "HP", the prefix, then "0000".
pub open spec fn palette_name_spec(prefix: Seq<char>) -> Seq<char> {
    seq!['H', 'P'] + prefix + seq!['0', '0', '0', '0']
}

proof fn lemma_digit_char_byte(d: int)
    requires
        0 <= d < 10,
    ensures
        ((48 + d) as u8) as char == digit_char(d),
        digit_char(d) as u8 == 48 + d,
{
}

pub(crate) fn push_digits3(out: &mut Vec<u8>, n: u32)
    requires
        n <= 999,
    ensures
        final(out)@.len() == old(out)@.len() + 3,
        forall|j: int|
            old(out)@.len() <= j < final(out)@.len() ==> final(out)@[j] < 128,
        (forall|j: int| 0 <= j < old(out)@.len() ==> old(out)@[j] < 128) ==> bytes_as_chars(
            final(out)@,
        ) == bytes_as_chars(old(out)@) + digits3(n as int),
        final(out)@ == old(out)@ + ascii_bytes(digits3(n as int)),
{
    let d0 = (n / 100) as u8;
    let d1 = ((n / 10) % 10) as u8;
    let d2 = (n % 10) as u8;
    out.push(48 + d0);
    out.push(48 + d1);
    out.push(48 + d2);
    proof {
        lemma_digit_char_byte(d0 as int);
        lemma_digit_char_byte(d1 as int);
        lemma_digit_char_byte(d2 as int);
        assert(n as int / 100 % 10 == d0 as int);
        if forall|j: int| 0 <= j < old(out)@.len() ==> old(out)@[j] < 128 {
            assert(bytes_as_chars(out@) =~= bytes_as_chars(old(out)@) + digits3(n as int));
        }
        assert(out@ =~= old(out)@ + ascii_bytes(digits3(n as int)));
    }
}

/// Append the bytes of an ASCII string.
pub(crate) fn push_ascii(out: &mut Vec<u8>, s: &str)
    requires
        forall|i: int| 0 <= i < s@.len() ==> is_ascii_char(#[trigger] s@[i]),
    ensures
        final(out)@ == old(out)@ + ascii_bytes(s@),
{
    let n = s.unicode_len();
    let mut i: usize = 0;
    proof {
        assert(out@ =~= old(out)@ + ascii_bytes(s@.take(0)));
    }
    while i < n
        invariant
            i <= n,
            n == s@.len(),
            forall|j: int| 0 <= j < s@.len() ==> is_ascii_char(#[trigger] s@[j]),
            out@ == old(out)@ + ascii_bytes(s@.take(i as int)),
        decreases n - i,
    {
        let c = s.get_char(i) as u32;
        out.push(c as u8);
        proof {
            assert(out@ =~= old(out)@ + ascii_bytes(s@.take(i as int + 1)));
        }
        i = i + 1;
    }
    proof {
        assert(s@.take(n as int) =~= s@);
    }
}

/// The container name for the tile at grid position (x, y).
pub fn tile_appvar_name(prefix: &str, x: u32, y: u32) -> (result: String)
    requires
        valid_var_prefix(prefix@),
        x <= 999,
        y <= 999,
    ensures
        result@ == tile_name_spec(prefix@, x as int, y as int),
{
    let mut out: Vec<u8> = Vec::new();
    let c0 = prefix.get_char(0) as u32;
    let c1 = prefix.get_char(1) as u32;
    out.push(c0 as u8);
    out.push(c1 as u8);
    proof {
        assert(bytes_as_chars(out@) =~= prefix@);
    }
    push_digits3(&mut out, x);
    push_digits3(&mut out, y);
    proof {
        assert(prefix@ + digits3(x as int) + digits3(y as int) =~= (prefix@ + digits3(x as int))
            + digits3(y as int));
    }
    ascii_string(out)
}

/// The container name for the palette derived with the given prefix.
pub fn palette_container_name(prefix: &str) -> (result: String)
    requires
        valid_var_prefix(prefix@),
    ensures
        result@ == palette_name_spec(prefix@),
{
    let mut out: Vec<u8> = Vec::new();
    out.push(72u8);
    out.push(80u8);
    let c0 = prefix.get_char(0) as u32;
    let c1 = prefix.get_char(1) as u32;
    out.push(c0 as u8);
    out.push(c1 as u8);
    out.push(48u8);
    out.push(48u8);
    out.push(48u8);
    out.push(48u8);
    proof {
        assert(bytes_as_chars(out@) =~= palette_name_spec(prefix@));
    }
    ascii_string(out)
}

/// Filtering a sequence of all-alphanumeric characters keeps every one.
proof fn lemma_filter_alnum_all(s: Seq<char>)
    requires
        forall|i: int| 0 <= i < s.len() ==> is_alnum_char(#[trigger] s[i]),
    ensures
        filter_alnum(s) == s,
    decreases s.len(),
{
    if s.len() > 0 {
        lemma_filter_alnum_all(s.drop_last());
        assert(filter_alnum(s) =~= s);
    } else {
        assert(filter_alnum(s) =~= s);
    }
}

/// Filtering distributes over concatenation.
proof fn lemma_filter_alnum_concat(a: Seq<char>, b: Seq<char>)
    ensures
        filter_alnum(a + b) == filter_alnum(a) + filter_alnum(b),
    decreases b.len(),
{
    if b.len() == 0 {
        assert(a + b =~= a);
        assert(filter_alnum(a) + filter_alnum(b) =~= filter_alnum(a));
    } else {
        lemma_filter_alnum_concat(a, b.drop_last());
        assert((a + b).drop_last() =~= a + b.drop_last());
        assert((a + b).last() == b.last());
        if is_alnum_char(b.last()) {
            assert(filter_alnum(a) + filter_alnum(b) =~= (filter_alnum(a) + filter_alnum(
                b.drop_last(),
            )).push(b.last()));
        }
    }
}

/// No underscore survives the filter.
proof fn lemma_filter_alnum_underscores(s: Seq<char>)
    requires
        forall|i: int| 0 <= i < s.len() ==> #[trigger] s[i] == '_',
    ensures
        filter_alnum(s) == Seq::<char>::empty(),
    decreases s.len(),
{
    if s.len() > 0 {
        lemma_filter_alnum_underscores(s.drop_last());
    }
}

/// Every character of the fixed-head filtered sequence is alphanumeric, and
/// its first character is alphabetic.
proof fn lemma_fix_head_chars(s: Seq<char>)
    ensures
        forall|i: int|
            0 <= i < fix_head(filter_alnum(s)).len() ==> is_alnum_char(
                #[trigger] fix_head(filter_alnum(s))[i],
            ),
        fix_head(filter_alnum(s)).len() == filter_alnum(s).len(),
        filter_alnum(s).len() > 0 ==> is_alpha_char(fix_head(filter_alnum(s))[0]),
{
    lemma_filter_alnum_chars(s);
    let f = filter_alnum(s);
    let h = fix_head(f);
    if f.len() > 0 && !is_alpha_char(f[0]) {
        assert forall|i: int| 0 <= i < h.len() implies is_alnum_char(h[i]) by {
            if i > 0 {
                assert(h[i] == f.skip(1)[i - 1]);
                assert(f.skip(1)[i - 1] == f[i]);
            }
        }
    }
}

/// The generated name always has exactly eight characters, each an ASCII
/// alphanumeric or '_'; when any input character survives the filter, the
/// first character is ASCII alphabetic.
pub proof fn lemma_calc_name_valid(s: Seq<char>)
    ensures
        calc_name_spec(s).len() == 8,
        forall|i: int| 0 <= i < 8 ==> valid_name_char(#[trigger] calc_name_spec(s)[i]),
        filter_alnum(s).len() > 0 ==> is_alpha_char(calc_name_spec(s)[0]),
{
    lemma_fix_head_chars(s);
    let h = fix_head(filter_alnum(s));
    let p = calc_name_spec(s);
    assert(head8(h).len() == if h.len() >= 8 {
        8int
    } else {
        h.len() as int
    });
    assert forall|i: int| 0 <= i < 8 implies valid_name_char(p[i]) by {
        if i < head8(h).len() {
            assert(p[i] == head8(h)[i]);
            assert(head8(h)[i] == h[i]);
        }
    }
}

/// Generating a name from a generated name gives it back unchanged: the
/// generator is idempotent.
pub proof fn lemma_calc_name_idempotent(s: Seq<char>)
    ensures
        calc_name_spec(calc_name_spec(s)) == calc_name_spec(s),
{
    lemma_fix_head_chars(s);
    let f = filter_alnum(s);
    let h = fix_head(f);
    let pad = Seq::new(if h.len() >= 8 {
        0
    } else {
        (8 - h.len()) as nat
    }, |i: int| '_');
    let p = calc_name_spec(s);
    assert(p == head8(h) + pad);
    lemma_filter_alnum_concat(head8(h), pad);
    assert forall|i: int| 0 <= i < head8(h).len() implies is_alnum_char(#[trigger] head8(h)[i]) by {
        assert(head8(h)[i] == h[i]);
    }
    lemma_filter_alnum_all(head8(h));
    lemma_filter_alnum_underscores(pad);
    assert(filter_alnum(p) =~= head8(h));
    if h.len() == 0 {
        assert(calc_name_spec(p) =~= p);
    } else {
        assert(head8(h)[0] == h[0]);
        assert(fix_head(head8(h)) == head8(h));
        if h.len() >= 8 {
            assert(head8(head8(h)) =~= head8(h));
            assert(calc_name_spec(p) =~= p);
        } else {
            assert(calc_name_spec(p) =~= p);
        }
    }
}

} // verus!
