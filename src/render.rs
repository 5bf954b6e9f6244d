//! Natural and structural text renderings of values.
use vstd::prelude::*;

verus! {

/// The decimal digit character for `d`, for `d < 10`.
pub open spec fn digit_char(d: nat) -> char {
    if d == 0 {
        '0'
    } else if d == 1 {
        '1'
    } else if d == 2 {
        '2'
    } else if d == 3 {
        '3'
    } else if d == 4 {
        '4'
    } else if d == 5 {
        '5'
    } else if d == 6 {
        '6'
    } else if d == 7 {
        '7'
    } else if d == 8 {
        '8'
    } else {
        '9'
    }
}

/// The decimal digits of `n`, most significant first, without leading zeros.
pub open spec fn digits_of(n: nat) -> Seq<char>
    decreases n,
{
    if n < 10 {
        seq![digit_char(n)]
    } else {
        digits_of(n / 10).push(digit_char(n % 10))
    }
}

/// The natural rendering of an integer: a minus sign for negative values, then
/// the decimal digits of its magnitude.
pub open spec fn int_text(i: int) -> Seq<char> {
    if i < 0 {
        seq!['-'] + digits_of((-i) as nat)
    } else {
        digits_of(i as nat)
    }
}

fn digit_str(d: u64) -> (r: &'static str)
    requires
        d < 10,
    ensures
        r@ == seq![digit_char(d as nat)],
{
    proof {
        reveal_strlit("0");
        reveal_strlit("1");
        reveal_strlit("2");
        reveal_strlit("3");
        reveal_strlit("4");
        reveal_strlit("5");
        reveal_strlit("6");
        reveal_strlit("7");
        reveal_strlit("8");
        reveal_strlit("9");
    }
    match d {
        0 => "0",
        1 => "1",
        2 => "2",
        3 => "3",
        4 => "4",
        5 => "5",
        6 => "6",
        7 => "7",
        8 => "8",
        _ => "9",
    }
}

/// Appends the decimal digits of `n` to `out`.
fn push_digits(out: &mut String, n: u64)
    ensures
        final(out)@ == old(out)@ + digits_of(n as nat),
    decreases n,
{
    if n >= 10 {
        push_digits(out, n / 10);
    }
    out.append(digit_str(n % 10));
    assert(out@ =~= old(out)@ + digits_of(n as nat));
}

/// The natural rendering of an 8-bit signed integer.
pub fn i8_text(x: i8) -> (r: String)
    ensures
        r@ == int_text(x as int),
{
    let mut out = String::new();
    if x < 0 {
        out.append("-");
        proof {
            reveal_strlit("-");
        }
        let magnitude: u64 = (0 - (x as i64)) as u64;
        push_digits(&mut out, magnitude);
    } else {
        push_digits(&mut out, x as u64);
    }
    assert(out@ =~= int_text(x as int));
    out
}

/// The natural rendering of an 8-bit unsigned integer.
pub fn u8_text(x: u8) -> (r: String)
    ensures
        r@ == int_text(x as int),
{
    let mut out = String::new();
    push_digits(&mut out, x as u64);
    assert(out@ =~= int_text(x as int));
    out
}

/// The rendering of a boolean: `true` or `false`.
pub open spec fn bool_text(b: bool) -> Seq<char> {
    if b {
        seq!['t', 'r', 'u', 'e']
    } else {
        seq!['f', 'a', 'l', 's', 'e']
    }
}

/// The rendering of a boolean as a new string.
pub fn bool_to_text(b: bool) -> (r: String)
    ensures
        r@ == bool_text(b),
{
    proof {
        reveal_strlit("true");
        reveal_strlit("false");
    }
    if b {
        String::from_str("true")
    } else {
        String::from_str("false")
    }
}

/// Relies on `ToString` for `char`: the string holds that one character.
#[verifier::external_body]
pub(crate) fn char_to_text(c: char) -> (r: String)
    ensures
        r@ == seq![c],
{
    c.to_string()
}

/// What the standard `Debug` formatting writes for a string slice: the text
/// between double quotes, with quotes, backslashes and unprintable characters
/// escaped.
pub uninterp spec fn debug_text(s: Seq<char>) -> Seq<char>;

/// Relies on `Debug` for `str`, through `format!("{:?}")`: the quoted form of
/// the text, which depends on the text alone.
#[verifier::external_body]
pub(crate) fn quoted(s: &str) -> (r: String)
    ensures
        r@ == debug_text(s@),
{
    format!("{:?}", s)
}

/// The element renderings separated by a comma and a space.
pub open spec fn joined(parts: Seq<Seq<char>>) -> Seq<char>
    decreases parts.len(),
{
    if parts.len() == 0 {
        Seq::empty()
    } else if parts.len() == 1 {
        parts[0]
    } else {
        joined(parts.drop_last()) + seq![',', ' '] + parts.last()
    }
}

/// The structural rendering of a sequence: its element renderings, joined,
/// between square brackets.
pub open spec fn bracketed(parts: Seq<Seq<char>>) -> Seq<char> {
    seq!['['] + joined(parts) + seq![']']
}

/// The structural rendering of a record: its field renderings, joined,
/// between parentheses.
pub open spec fn parenthesized(parts: Seq<Seq<char>>) -> Seq<char> {
    seq!['('] + joined(parts) + seq![')']
}

/// The text of each string in `v`, in order.
pub open spec fn texts(v: Seq<String>) -> Seq<Seq<char>> {
    v.map_values(|s: String| s@)
}

/// Appends the element renderings in `parts`, separated by a comma and a space.
fn push_joined(out: &mut String, parts: &Vec<String>)
    ensures
        final(out)@ == old(out)@ + joined(texts(parts@)),
{
    let ghost start = out@;
    let mut i: usize = 0;
    while i < parts.len()
        invariant
            i <= parts@.len(),
            out@ == start + joined(texts(parts@.take(i as int))),
        decreases parts@.len() - i,
    {
        let ghost before = texts(parts@.take(i as int));
        let ghost after = texts(parts@.take(i as int + 1));
        assert(after.drop_last() =~= before);
        assert(after.last() == parts@[i as int]@);
        if i > 0 {
            proof {
                reveal_strlit(", ");
            }
            out.append(", ");
            assert(out@ =~= start + joined(before) + seq![',', ' ']);
        } else {
            assert(out@ =~= start + joined(before));
        }
        let ghost mid = out@;
        out.append(parts[i].as_str());
        assert(out@ =~= mid + parts@[i as int]@);
        if i == 0 {
            assert(joined(after) == after[0]);
        } else {
            assert(joined(after) == joined(before) + seq![',', ' '] + after.last());
        }
        assert(out@ =~= start + joined(after));
        i = i + 1;
    }
    assert(parts@.take(i as int) =~= parts@);
}

/// The structural rendering of a sequence whose elements are already rendered.
pub fn render_list(parts: &Vec<String>) -> (r: String)
    ensures
        r@ == bracketed(texts(parts@)),
{
    proof {
        reveal_strlit("[");
        reveal_strlit("]");
    }
    let mut out = String::from_str("[");
    push_joined(&mut out, parts);
    out.append("]");
    out
}

/// The rendering of each integer in `v`, in order.
pub open spec fn int_texts(v: Seq<i8>) -> Seq<Seq<char>> {
    v.map_values(|x: i8| int_text(x as int))
}

/// The quoted rendering of each text in `v`, in order.
pub open spec fn quoted_texts(v: Seq<&str>) -> Seq<Seq<char>> {
    v.map_values(|s: &str| debug_text(s@))
}

/// The structural rendering of a sequence of 8-bit signed integers.
pub fn render_i8_list(v: &[i8]) -> (r: String)
    ensures
        r@ == bracketed(int_texts(v@)),
{
    let mut parts: Vec<String> = Vec::new();
    let mut i: usize = 0;
    while i < v.len()
        invariant
            i <= v@.len(),
            parts@.len() == i,
            texts(parts@) =~= int_texts(v@.take(i as int)),
        decreases v@.len() - i,
    {
        let ghost prev = parts@;
        let t = i8_text(v[i]);
        parts.push(t);
        assert(parts@ == prev.push(t));
        assert(texts(parts@)[i as int] == t@);
        assert(int_texts(v@.take(i as int + 1))[i as int] == t@);
        assert forall|j: int| 0 <= j < i implies texts(parts@)[j] == int_texts(
            v@.take(i as int + 1),
        )[j] by {
            assert(texts(prev)[j] == int_texts(v@.take(i as int))[j]);
        }
        i = i + 1;
        assert(texts(parts@) =~= int_texts(v@.take(i as int)));
    }
    assert(v@.take(i as int) =~= v@);
    render_list(&parts)
}

/// The structural rendering of a sequence of texts, each in quoted form.
pub fn render_str_list(v: &[&str]) -> (r: String)
    ensures
        r@ == bracketed(quoted_texts(v@)),
{
    let mut parts: Vec<String> = Vec::new();
    let mut i: usize = 0;
    while i < v.len()
        invariant
            i <= v@.len(),
            parts@.len() == i,
            texts(parts@) =~= quoted_texts(v@.take(i as int)),
        decreases v@.len() - i,
    {
        let ghost prev = parts@;
        let t = quoted(v[i]);
        parts.push(t);
        assert(parts@ == prev.push(t));
        assert(texts(parts@)[i as int] == t@);
        assert(quoted_texts(v@.take(i as int + 1))[i as int] == t@);
        assert forall|j: int| 0 <= j < i implies texts(parts@)[j] == quoted_texts(
            v@.take(i as int + 1),
        )[j] by {
            assert(texts(prev)[j] == quoted_texts(v@.take(i as int))[j]);
        }
        i = i + 1;
        assert(texts(parts@) =~= quoted_texts(v@.take(i as int)));
    }
    assert(v@.take(i as int) =~= v@);
    render_list(&parts)
}

/// The structural rendering of a record of a name, an age and a flag.
pub fn render_record(name: &str, age: i8, flag: bool) -> (r: String)
    ensures
        r@ == parenthesized(seq![debug_text(name@), int_text(age as int), bool_text(flag)]),
{
    proof {
        reveal_strlit("(");
        reveal_strlit(")");
    }
    let fields = vec![quoted(name), i8_text(age), bool_to_text(flag)];
    assert(texts(fields@) =~= seq![debug_text(name@), int_text(age as int), bool_text(flag)]);
    let mut out = String::from_str("(");
    push_joined(&mut out, &fields);
    out.append(")");
    out
}

/// A non-empty piece of text without spaces, as every integer rendering is.
pub open spec fn is_plain_piece(p: Seq<char>) -> bool {
    p.len() > 0 && forall|k: int| 0 <= k < p.len() ==> p[k] != ' '
}

/// Every piece of `parts` is plain.
pub open spec fn all_plain(parts: Seq<Seq<char>>) -> bool {
    forall|i: int| 0 <= i < parts.len() ==> is_plain_piece(#[trigger] parts[i])
}

/// Every character of a decimal rendering is a decimal digit.
pub proof fn lemma_digits_are_digits(n: nat)
    ensures
        digits_of(n).len() > 0,
        forall|k: int| 0 <= k < digits_of(n).len() ==> '0' <= #[trigger] digits_of(n)[k] <= '9',
    decreases n,
{
    if n >= 10 {
        lemma_digits_are_digits(n / 10);
    }
}

/// Distinct naturals have distinct decimal renderings.
pub proof fn lemma_digits_injective(m: nat, n: nat)
    requires
        digits_of(m) == digits_of(n),
    ensures
        m == n,
    decreases m,
{
    lemma_digits_are_digits(m / 10);
    lemma_digits_are_digits(n / 10);
    if m >= 10 && n >= 10 {
        let dm = digits_of(m);
        assert(dm.last() == digit_char(m % 10));
        assert(digits_of(n).last() == digit_char(n % 10));
        assert(m % 10 == n % 10);
        assert(digits_of(m / 10) == dm.drop_last());
        assert(digits_of(n / 10) == digits_of(n).drop_last());
        lemma_digits_injective(m / 10, n / 10);
    } else if m >= 10 {
        assert(digits_of(m).len() >= 2);
    } else if n >= 10 {
        assert(digits_of(n).len() >= 2);
    } else {
        assert(digits_of(m)[0] == digit_char(m));
    }
}

/// Distinct integers have distinct natural renderings.
pub proof fn lemma_int_text_injective(x: int, y: int)
    requires
        int_text(x) == int_text(y),
    ensures
        x == y,
{
    lemma_digits_are_digits(if x < 0 { (-x) as nat } else { x as nat });
    lemma_digits_are_digits(if y < 0 { (-y) as nat } else { y as nat });
    if x < 0 && y < 0 {
        assert(digits_of((-x) as nat) =~= int_text(x).drop_first());
        assert(digits_of((-y) as nat) =~= int_text(y).drop_first());
        lemma_digits_injective((-x) as nat, (-y) as nat);
    } else if x >= 0 && y >= 0 {
        lemma_digits_injective(x as nat, y as nat);
    } else {
        let (neg, pos) = if x < 0 { (x, y) } else { (y, x) };
        assert(int_text(neg)[0] == '-');
        assert(int_text(pos)[0] == digits_of(pos as nat)[0]);
    }
}

/// An integer rendering is a plain piece.
pub proof fn lemma_int_text_plain(x: int)
    ensures
        is_plain_piece(int_text(x)),
{
    let n = if x < 0 { (-x) as nat } else { x as nat };
    lemma_digits_are_digits(n);
    assert forall|k: int| 0 <= k < int_text(x).len() implies int_text(x)[k] != ' ' by {
        if x < 0 && k > 0 {
            assert(int_text(x)[k] == digits_of(n)[k - 1]);
        }
    }
}

/// Joining at least one non-empty piece gives non-empty text.
proof fn lemma_joined_nonempty(parts: Seq<Seq<char>>)
    requires
        all_plain(parts),
        parts.len() > 0,
    ensures
        joined(parts).len() > 0,
{
    assert(is_plain_piece(parts[0]));
}

/// Joining two or more pieces puts a space right after the last comma.
proof fn lemma_joined_space(parts: Seq<Seq<char>>)
    requires
        parts.len() >= 2,
    ensures
        joined(parts).len() == joined(parts.drop_last()).len() + 2 + parts.last().len(),
        joined(parts)[joined(parts.drop_last()).len() as int + 1] == ' ',
{
}

/// Two joins of plain pieces that give the same text end with pieces of the
/// same length.
proof fn lemma_last_piece_not_shorter(a: Seq<Seq<char>>, b: Seq<Seq<char>>)
    requires
        a.len() >= 2,
        b.len() >= 2,
        all_plain(a),
        all_plain(b),
        joined(a) == joined(b),
    ensures
        a.last().len() >= b.last().len(),
{
    let s = joined(a);
    let n = s.len() as int;
    let la = a.last();
    let lb = b.last();
    lemma_joined_space(a);
    lemma_joined_space(b);
    if la.len() < lb.len() {
        let pos = n - la.len() - 1;
        assert(s[pos] == ' ');
        assert(is_plain_piece(b[b.len() - 1]));
        let k = pos - (n - lb.len());
        assert(s[pos] == lb[k]);
    }
}

/// Joining plain pieces loses nothing: equal joins come from equal pieces.
pub proof fn lemma_joined_injective(a: Seq<Seq<char>>, b: Seq<Seq<char>>)
    requires
        all_plain(a),
        all_plain(b),
        joined(a) == joined(b),
    ensures
        a == b,
    decreases a.len(),
{
    if a.len() == 0 || b.len() == 0 {
        if a.len() > 0 {
            lemma_joined_nonempty(a);
        }
        if b.len() > 0 {
            lemma_joined_nonempty(b);
        }
        assert(a =~= b);
    } else if a.len() == 1 && b.len() == 1 {
        assert(a =~= b);
    } else if a.len() == 1 {
        lemma_joined_space(b);
        assert(is_plain_piece(a[0]));
        assert(joined(a)[joined(b.drop_last()).len() as int + 1] == ' ');
    } else if b.len() == 1 {
        lemma_joined_space(a);
        assert(is_plain_piece(b[0]));
        assert(joined(b)[joined(a.drop_last()).len() as int + 1] == ' ');
    } else {
        lemma_last_piece_not_shorter(a, b);
        lemma_last_piece_not_shorter(b, a);
        lemma_joined_space(a);
        lemma_joined_space(b);
        let s = joined(a);
        let n = s.len() as int;
        let len = a.last().len() as int;
        assert(a.last() =~= s.subrange(n - len, n));
        assert(b.last() =~= s.subrange(n - len, n));
        assert(joined(a.drop_last()) =~= s.subrange(0, n - len - 2));
        assert(joined(b.drop_last()) =~= s.subrange(0, n - len - 2));
        lemma_joined_injective(a.drop_last(), b.drop_last());
        assert(a =~= a.drop_last().push(a.last()));
        assert(b =~= b.drop_last().push(b.last()));
    }
}

/// The structural rendering of an integer sequence keeps every element, in
/// order: sequences with the same rendering are the same sequence.
pub proof fn lemma_i8_list_rendering_faithful(a: Seq<i8>, b: Seq<i8>)
    requires
        bracketed(int_texts(a)) == bracketed(int_texts(b)),
    ensures
        a == b,
{
    let pa = int_texts(a);
    let pb = int_texts(b);
    let s = bracketed(pa);
    assert(joined(pa) =~= s.subrange(1, s.len() - 1));
    assert(joined(pb) =~= s.subrange(1, s.len() - 1));
    assert forall|i: int| 0 <= i < pa.len() implies is_plain_piece(#[trigger] pa[i]) by {
        lemma_int_text_plain(a[i] as int);
    }
    assert forall|i: int| 0 <= i < pb.len() implies is_plain_piece(#[trigger] pb[i]) by {
        lemma_int_text_plain(b[i] as int);
    }
    lemma_joined_injective(pa, pb);
    assert forall|i: int| 0 <= i < a.len() implies a[i] == b[i] by {
        assert(pa[i] == pb[i]);
        lemma_int_text_injective(a[i] as int, b[i] as int);
    }
    assert(a =~= b);
}

} // verus!
