//! Text building: concatenation, numbers, identifiers and C string escapes.
use vstd::prelude::*;

verus! {

/// `String::push` appends one character.
pub assume_specification[ String::push ](s: &mut String, c: char)
    ensures
        final(s)@ == old(s)@.push(c),
;

/// `part` occurs somewhere in `whole`.
pub open spec fn has_part(whole: Seq<char>, part: Seq<char>) -> bool {
    exists|i: int|
        0 <= i && i + part.len() <= whole.len() && #[trigger] whole.subrange(i, i + part.len())
            == part
}

/// Tests two texts for equality.
pub fn str_eq(a: &str, b: &str) -> (r: bool)
    ensures
        r == (a@ == b@),
{
    let x: String = a.to_owned();
    let y: String = b.to_owned();
    x == y
}

/// A copy of a text.
pub fn own(a: &str) -> (r: String)
    ensures
        r@ == a@,
{
    a.to_owned()
}

/// Two texts, one after the other.
pub fn cat2(a: &str, b: &str) -> (r: String)
    ensures
        r@ == a@ + b@,
{
    let mut s: String = a.to_owned();
    s.append(b);
    s
}

/// Three texts, one after the other.
pub fn cat3(a: &str, b: &str, c: &str) -> (r: String)
    ensures
        r@ == a@ + b@ + c@,
{
    let mut s: String = a.to_owned();
    s.append(b);
    s.append(c);
    s
}

/// Four texts, one after the other.
pub fn cat4(a: &str, b: &str, c: &str, d: &str) -> (r: String)
    ensures
        r@ == a@ + b@ + c@ + d@,
{
    let mut s: String = a.to_owned();
    s.append(b);
    s.append(c);
    s.append(d);
    s
}

/// Five texts, one after the other.
pub fn cat5(a: &str, b: &str, c: &str, d: &str, e: &str) -> (r: String)
    ensures
        r@ == a@ + b@ + c@ + d@ + e@,
{
    let mut s: String = cat4(a, b, c, d);
    s.append(e);
    s
}

/// Six texts, one after the other.
pub fn cat6(a: &str, b: &str, c: &str, d: &str, e: &str, f: &str) -> (r: String)
    ensures
        r@ == a@ + b@ + c@ + d@ + e@ + f@,
{
    let mut s: String = cat4(a, b, c, d);
    s.append(e);
    s.append(f);
    s
}

/// Seven texts, one after the other.
pub fn cat7(a: &str, b: &str, c: &str, d: &str, e: &str, f: &str, g: &str) -> (r: String)
    ensures
        r@ == a@ + b@ + c@ + d@ + e@ + f@ + g@,
{
    let mut s: String = cat4(a, b, c, d);
    s.append(e);
    s.append(f);
    s.append(g);
    s
}

/// Eight texts, one after the other.
pub fn cat8(a: &str, b: &str, c: &str, d: &str, e: &str, f: &str, g: &str, h: &str) -> (r: String)
    ensures
        r@ == a@ + b@ + c@ + d@ + e@ + f@ + g@ + h@,
{
    let mut s: String = cat7(a, b, c, d, e, f, g);
    s.append(h);
    s
}

/// Nine texts, one after the other.
pub fn cat9(
    a: &str,
    b: &str,
    c: &str,
    d: &str,
    e: &str,
    f: &str,
    g: &str,
    h: &str,
    i: &str,
) -> (r: String)
    ensures
        r@ == a@ + b@ + c@ + d@ + e@ + f@ + g@ + h@ + i@,
{
    let mut s: String = cat7(a, b, c, d, e, f, g);
    s.append(h);
    s.append(i);
    s
}

/// Ten texts, one after the other.
pub fn cat10(
    a: &str,
    b: &str,
    c: &str,
    d: &str,
    e: &str,
    f: &str,
    g: &str,
    h: &str,
    i: &str,
    j: &str,
) -> (r: String)
    ensures
        r@ == a@ + b@ + c@ + d@ + e@ + f@ + g@ + h@ + i@ + j@,
{
    let mut s: String = cat9(a, b, c, d, e, f, g, h, i);
    s.append(j);
    s
}

/// Eleven texts, one after the other.
pub fn cat11(
    a: &str,
    b: &str,
    c: &str,
    d: &str,
    e: &str,
    f: &str,
    g: &str,
    h: &str,
    i: &str,
    j: &str,
    k: &str,
) -> (r: String)
    ensures
        r@ == a@ + b@ + c@ + d@ + e@ + f@ + g@ + h@ + i@ + j@ + k@,
{
    let mut s: String = cat9(a, b, c, d, e, f, g, h, i);
    s.append(j);
    s.append(k);
    s
}

/// The characters of a text.
pub fn chars_of(s: &str) -> (r: Vec<char>)
    ensures
        r@ == s@,
{
    let mut v: Vec<char> = Vec::new();
    for c in it: s.chars()
        invariant
            it.seq() == s@,
            v@ == s@.take(it.index()),
    {
        v.push(c);
        assert(s@.take(it.index() + 1) =~= s@.take(it.index()).push(c));
    }
    assert(s@.take(s@.len() as int) =~= s@);
    v
}

/// The text of the characters from position `from` on.
pub fn string_from(v: &Vec<char>, from: usize) -> (r: String)
    requires
        from <= v@.len(),
    ensures
        r@ == v@.skip(from as int),
{
    let mut s: String = String::new();
    let mut i: usize = from;
    assert(v@.subrange(from as int, from as int) =~= Seq::<char>::empty());
    while i < v.len()
        invariant
            from <= i <= v@.len(),
            s@ == v@.subrange(from as int, i as int),
        decreases v@.len() - i,
    {
        s.push(v[i]);
        assert(v@.subrange(from as int, i + 1) =~= v@.subrange(from as int, i as int).push(
            v@[i as int],
        ));
        i += 1;
    }
    assert(v@.subrange(from as int, v@.len() as int) =~= v@.skip(from as int));
    s
}

/// `s` begins with `prefix`.
pub open spec fn begins(s: Seq<char>, prefix: Seq<char>) -> bool {
    prefix.len() <= s.len() && s.take(prefix.len() as int) == prefix
}

/// Tests whether the characters from position `at` on begin with `prefix`.
pub fn begins_at(v: &Vec<char>, at: usize, prefix: &Vec<char>) -> (r: bool)
    requires
        at <= v@.len(),
    ensures
        r == begins(v@.skip(at as int), prefix@),
{
    let n: usize = prefix.len();
    if n > v.len() - at {
        return false;
    }
    let mut i: usize = 0;
    while i < n
        invariant
            i <= n,
            n == prefix@.len(),
            at + n <= v.len(),
            forall|j: int| 0 <= j < i ==> v@[at + j] == #[trigger] prefix@[j],
        decreases n - i,
    {
        if v[at + i] != prefix[i] {
            assert(v@.skip(at as int).take(n as int)[i as int] != prefix@[i as int]);
            return false;
        }
        i += 1;
    }
    assert(v@.skip(at as int).take(n as int) =~= prefix@);
    true
}

/// Tests whether `part` occurs somewhere in `whole`.
pub fn text_contains(whole: &str, part: &str) -> (r: bool)
    ensures
        r == has_part(whole@, part@),
{
    let v: Vec<char> = chars_of(whole);
    let p: Vec<char> = chars_of(part);
    let total: usize = v.len();
    let mut i: usize = 0;
    while i < total
        invariant
            i <= total,
            total == v@.len(),
            v@ == whole@,
            p@ == part@,
            forall|j: int|
                0 <= j < i && j + p@.len() <= v@.len() ==> #[trigger] v@.subrange(j, j + p@.len())
                    != p@,
        decreases total - i,
    {
        let found: bool = begins_at(&v, i, &p);
        proof {
            if i + p@.len() <= v@.len() {
                assert(v@.skip(i as int).take(p@.len() as int) =~= v@.subrange(
                    i as int,
                    i + p@.len(),
                ));
            }
        }
        if found {
            return true;
        }
        i += 1;
    }
    let found: bool = begins_at(&v, total, &p);
    proof {
        if p@.len() == 0 {
            assert(whole@.subrange(total as int, total + part@.len()) =~= part@);
            assert(v@.skip(total as int).take(0) =~= p@);
        } else if has_part(whole@, part@) {
            let w = choose|w: int|
                0 <= w && w + part@.len() <= whole@.len() && #[trigger] whole@.subrange(
                    w,
                    w + part@.len(),
                ) == part@;
            assert(v@.subrange(w, w + p@.len()) == p@);
        }
    }
    found
}

/// Tests whether `s` begins with `prefix`.
pub fn starts_with(s: &str, prefix: &str) -> (r: bool)
    ensures
        r == begins(s@, prefix@),
{
    let v: Vec<char> = chars_of(s);
    let p: Vec<char> = chars_of(prefix);
    assert(v@.skip(0) =~= v@);
    begins_at(&v, 0, &p)
}

/// The views of a sequence of strings.
pub open spec fn views(v: Seq<String>) -> Seq<Seq<char>> {
    Seq::new(v.len(), |i: int| v[i]@)
}

/// An empty list of texts.
pub fn no_parts() -> (r: Vec<String>)
    ensures
        views(r@) == Seq::<Seq<char>>::empty(),
{
    let r: Vec<String> = Vec::new();
    assert(views(r@) =~= Seq::<Seq<char>>::empty());
    r
}

/// Appends a text to a list of texts.
pub fn push_part(parts: &mut Vec<String>, s: String)
    ensures
        views(final(parts)@) == views(old(parts)@).push(s@),
{
    let ghost before: Seq<String> = parts@;
    parts.push(s);
    assert(views(parts@) =~= views(before).push(s@));
}

/// The texts with `sep` between neighbours.
pub open spec fn joined(parts: Seq<Seq<char>>, sep: Seq<char>) -> Seq<char>
    decreases parts.len(),
{
    if parts.len() == 0 {
        Seq::empty()
    } else if parts.len() == 1 {
        parts[0]
    } else {
        joined(parts.drop_last(), sep) + sep + parts.last()
    }
}

/// Joins texts with a separator.
pub fn join(parts: &Vec<String>, sep: &str) -> (r: String)
    ensures
        r@ == joined(views(parts@), sep@),
{
    let ghost all: Seq<Seq<char>> = views(parts@);
    if parts.len() == 0 {
        return String::new();
    }
    let mut s: String = own(&parts[0]);
    let mut i: usize = 1;
    assert(all.take(1).len() == 1);
    while i < parts.len()
        invariant
            1 <= i <= parts@.len(),
            all == views(parts@),
            s@ == joined(all.take(i as int), sep@),
        decreases parts@.len() - i,
    {
        s.append(sep);
        s.append(&parts[i]);
        assert(all.take(i + 1).drop_last() =~= all.take(i as int));
        i += 1;
    }
    assert(all.take(i as int) =~= all);
    s
}

/// A line of output after the indentation `ind`.
pub open spec fn line_c(ind: Seq<char>, text: Seq<char>) -> Seq<char> {
    ind + text + "\n"@
}

/// Writes a line at an indentation.
pub fn line(ind: &str, text: &str) -> (r: String)
    ensures
        r@ == line_c(ind@, text@),
{
    cat3(ind, text, "\n")
}

/// One level of indentation more.
pub open spec fn deeper_c(ind: Seq<char>) -> Seq<char> {
    ind + "    "@
}

/// The next deeper indentation.
pub fn deeper(ind: &str) -> (r: String)
    ensures
        r@ == deeper_c(ind@),
{
    cat2(ind, "    ")
}

/// The character of a digit below sixteen.
pub open spec fn digit(d: nat) -> char {
    if d == 0 { '0' } else if d == 1 { '1' } else if d == 2 { '2' } else if d == 3 { '3' }
    else if d == 4 { '4' } else if d == 5 { '5' } else if d == 6 { '6' } else if d == 7 { '7' }
    else if d == 8 { '8' } else if d == 9 { '9' } else if d == 10 { 'a' } else if d == 11 { 'b' }
    else if d == 12 { 'c' } else if d == 13 { 'd' } else if d == 14 { 'e' } else { 'f' }
}

fn digit_char(d: u64) -> (r: char)
    requires
        d < 16,
    ensures
        r == digit(d as nat),
{
    if d == 0 { '0' } else if d == 1 { '1' } else if d == 2 { '2' } else if d == 3 { '3' }
    else if d == 4 { '4' } else if d == 5 { '5' } else if d == 6 { '6' } else if d == 7 { '7' }
    else if d == 8 { '8' } else if d == 9 { '9' } else if d == 10 { 'a' } else if d == 11 { 'b' }
    else if d == 12 { 'c' } else if d == 13 { 'd' } else if d == 14 { 'e' } else { 'f' }
}

/// The digits of `n` in base `base`, without leading zeros.
pub open spec fn digits(n: nat, base: nat) -> Seq<char>
    decreases n,
{
    if n < base || base < 2 {
        seq![digit(n)]
    } else {
        proof {
            assert(n / base < n) by (nonlinear_arith)
                requires
                    n >= base,
                    base >= 2,
            ;
        }
        digits(n / base, base).push(digit(n % base))
    }
}

/// The decimal text of an integer.
pub open spec fn decimal(n: int) -> Seq<char> {
    if n < 0 {
        "-"@ + digits((-n) as nat, 10)
    } else {
        digits(n as nat, 10)
    }
}

/// The lower-case hexadecimal text of a number, padded to two digits.
pub open spec fn hex2(n: nat) -> Seq<char> {
    if n < 16 {
        "0"@ + digits(n, 16)
    } else {
        digits(n, 16)
    }
}

fn digits_text(n: u64, base: u64) -> (r: String)
    requires
        2 <= base <= 16,
    ensures
        r@ == digits(n as nat, base as nat),
    decreases n,
{
    if n < base {
        let mut s: String = String::new();
        s.push(digit_char(n));
        assert(s@ =~= seq![digit(n as nat)]);
        s
    } else {
        assert(n / base < n) by (nonlinear_arith)
            requires
                n >= base,
                base >= 2,
        ;
        let mut s: String = digits_text(n / base, base);
        s.push(digit_char(n % base));
        s
    }
}

/// The decimal text of an unsigned number.
pub fn dec_u64(n: u64) -> (r: String)
    ensures
        r@ == decimal(n as int),
{
    digits_text(n, 10)
}

/// The decimal text of a signed number.
pub fn dec_i64(n: i64) -> (r: String)
    ensures
        r@ == decimal(n as int),
{
    if n < 0 {
        let m: u64 = (-(n + 1)) as u64 + 1;
        cat2("-", &digits_text(m, 10))
    } else {
        digits_text(n as u64, 10)
    }
}

/// The two-digit hexadecimal text of a number.
pub fn hex_text(n: u32) -> (r: String)
    ensures
        r@ == hex2(n as nat),
{
    if n < 16 {
        cat2("0", &digits_text(n as u64, 16))
    } else {
        digits_text(n as u64, 16)
    }
}

fn char_code(c: char) -> (r: String)
    ensures
        r@ == hex2(c as nat),
{
    hex_text(c as u32)
}

/// An ASCII letter, an ASCII digit or an underscore.
pub open spec fn ident_char(c: char) -> bool {
    ('a' <= c && c <= 'z') || ('A' <= c && c <= 'Z') || ('0' <= c && c <= '9') || c == '_'
}

/// A name as a C identifier: every other character becomes an underscore and
/// its code point in hexadecimal.
pub open spec fn ident(name: Seq<char>) -> Seq<char>
    decreases name.len(),
{
    if name.len() == 0 {
        Seq::empty()
    } else {
        let c = name.last();
        let done = ident(name.drop_last());
        if ident_char(c) {
            done.push(c)
        } else {
            done + "_"@ + hex2(c as nat)
        }
    }
}

/// Mangles a name to an ASCII-only C identifier.
pub fn c_ident(name: &str) -> (r: String)
    ensures
        r@ == ident(name@),
{
    let mut out: String = String::new();
    for c in it: name.chars()
        invariant
            it.seq() == name@,
            out@ == ident(name@.take(it.index())),
    {
        assert(name@.take(it.index() + 1).drop_last() =~= name@.take(it.index()));
        if ('a' <= c && c <= 'z') || ('A' <= c && c <= 'Z') || ('0' <= c && c <= '9') || c == '_' {
            out.push(c);
        } else {
            out.append("_");
            out.append(&char_code(c));
        }
    }
    assert(name@.take(name@.len() as int) =~= name@);
    out
}

/// What stands for one character between the quotes of a C string literal.
pub open spec fn escaped_char(c: char) -> Seq<char> {
    if c == '\\' {
        "\\\\"@
    } else if c == '"' {
        "\\\""@
    } else if c == '\n' {
        "\\n"@
    } else if c == '\t' {
        "\\t"@
    } else if c == '\r' {
        "\\r"@
    } else if (c as nat) < 0x20 {
        "\\x"@ + hex2(c as nat)
    } else {
        seq![c]
    }
}

/// A text as the inside of a C string literal.
pub open spec fn escaped(s: Seq<char>) -> Seq<char>
    decreases s.len(),
{
    if s.len() == 0 {
        Seq::empty()
    } else {
        escaped(s.drop_last()) + escaped_char(s.last())
    }
}

fn escape_char(c: char) -> (r: String)
    ensures
        r@ == escaped_char(c),
{
    if c == '\\' {
        own("\\\\")
    } else if c == '"' {
        own("\\\"")
    } else if c == '\n' {
        own("\\n")
    } else if c == '\t' {
        own("\\t")
    } else if c == '\r' {
        own("\\r")
    } else if (c as u32) < 0x20 {
        cat2("\\x", &hex_text(c as u32))
    } else {
        let mut s: String = String::new();
        s.push(c);
        assert(s@ =~= seq![c]);
        s
    }
}

/// Escapes a text for a C string literal.
pub fn c_escape(s: &str) -> (r: String)
    ensures
        r@ == escaped(s@),
{
    let mut out: String = String::new();
    for c in it: s.chars()
        invariant
            it.seq() == s@,
            out@ == escaped(s@.take(it.index())),
    {
        assert(s@.take(it.index() + 1).drop_last() =~= s@.take(it.index()));
        out.append(&escape_char(c));
    }
    assert(s@.take(s@.len() as int) =~= s@);
    out
}

/// A digit of a number in a base of at most sixteen.
pub open spec fn hex_char(c: char) -> bool {
    ('0' <= c && c <= '9') || ('a' <= c && c <= 'f')
}

proof fn lemma_digits_chars(n: nat, base: nat)
    ensures
        digits(n, base).len() > 0,
        forall|i: int| 0 <= i < digits(n, base).len() ==> hex_char(#[trigger] digits(n, base)[i]),
    decreases n,
{
    if n >= base && base >= 2 {
        assert(n / base < n) by (nonlinear_arith)
            requires
                n >= base,
                base >= 2,
        ;
        lemma_digits_chars(n / base, base);
        let rest = digits(n / base, base);
        assert(digits(n, base) == rest.push(digit(n % base)));
        assert forall|i: int| 0 <= i < digits(n, base).len() implies hex_char(
            #[trigger] digits(n, base)[i],
        ) by {
            if i < rest.len() {
                assert(hex_char(rest[i]));
            }
        }
    }
}

proof fn lemma_digits_injective(n: nat, m: nat)
    requires
        digits(n, 10) == digits(m, 10),
    ensures
        n == m,
    decreases n,
{
    lemma_digits_chars(n / 10, 10);
    lemma_digits_chars(m / 10, 10);
    if n >= 10 && m >= 10 {
        let (a, b) = (digits(n / 10, 10), digits(m / 10, 10));
        assert(digits(n, 10) == a.push(digit(n % 10)));
        assert(digits(m, 10) == b.push(digit(m % 10)));
        assert(a =~= digits(n, 10).drop_last());
        assert(b =~= digits(m, 10).drop_last());
        lemma_digits_injective(n / 10, m / 10);
        assert(digits(n, 10).last() == digit(n % 10));
        assert(digits(m, 10).last() == digit(m % 10));
        assert(n % 10 == m % 10);
    } else if n < 10 && m < 10 {
        assert(digits(n, 10)[0] == digit(n));
        assert(digits(m, 10)[0] == digit(m));
    } else if n < 10 {
        assert(digits(m, 10).len() == digits(m / 10, 10).len() + 1);
        assert(digits(n, 10).len() == 1);
    } else {
        assert(digits(n, 10).len() == digits(n / 10, 10).len() + 1);
        assert(digits(m, 10).len() == 1);
    }
}

/// A text that ends in an underscore and a number gives the number away.
pub proof fn lemma_numbered_suffix(a: Seq<char>, b: Seq<char>, n: nat, m: nat)
    requires
        a + "_"@ + decimal(n as int) == b + "_"@ + decimal(m as int),
    ensures
        n == m,
        a == b,
{
    reveal_strlit("_");
    lemma_digits_chars(n, 10);
    lemma_digits_chars(m, 10);
    let (x, y) = (digits(n, 10), digits(m, 10));
    let (s, t) = (a + "_"@ + x, b + "_"@ + y);
    assert(s == t);
    assert(s[a.len() as int] == '_');
    assert(t[b.len() as int] == '_');
    if a.len() > b.len() {
        assert(t[a.len() as int] == y[a.len() - b.len() - 1]);
        assert(hex_char(y[a.len() - b.len() - 1]));
    } else if b.len() > a.len() {
        assert(s[b.len() as int] == x[b.len() - a.len() - 1]);
        assert(hex_char(x[b.len() - a.len() - 1]));
    } else {
        assert(a =~= s.take(a.len() as int));
        assert(b =~= t.take(b.len() as int));
        assert(x =~= s.skip((a.len() + 1) as int));
        assert(y =~= t.skip((b.len() + 1) as int));
        lemma_digits_injective(n, m);
    }
}

/// A text that begins with a number and an underscore gives the number away.
pub proof fn lemma_numbered_prefix(p: Seq<char>, a: Seq<char>, b: Seq<char>, n: nat, m: nat)
    requires
        p + decimal(n as int) + "_"@ + a == p + decimal(m as int) + "_"@ + b,
    ensures
        n == m,
        a == b,
{
    reveal_strlit("_");
    lemma_digits_chars(n, 10);
    lemma_digits_chars(m, 10);
    let (x, y) = (digits(n, 10), digits(m, 10));
    let (s, t) = (p + x + "_"@ + a, p + y + "_"@ + b);
    assert(s == t);
    let k = p.len() as int;
    assert(s[k + x.len()] == '_');
    assert(t[k + y.len()] == '_');
    if x.len() > y.len() {
        assert(s[k + y.len()] == x[y.len() as int]);
        assert(hex_char(x[y.len() as int]));
    } else if y.len() > x.len() {
        assert(t[k + x.len()] == y[x.len() as int]);
        assert(hex_char(y[x.len() as int]));
    } else {
        assert(x =~= s.subrange(k, k + x.len()));
        assert(y =~= t.subrange(k, k + y.len()));
        assert(a =~= s.skip(k + x.len() + 1));
        assert(b =~= t.skip(k + y.len() + 1));
        lemma_digits_injective(n, m);
    }
}

/// A mangled name holds ASCII letters, digits and underscores only.
pub proof fn law_ident_is_identifier(name: Seq<char>)
    ensures
        forall|i: int| 0 <= i < ident(name).len() ==> ident_char(#[trigger] ident(name)[i]),
    decreases name.len(),
{
    if name.len() > 0 {
        let c = name.last();
        let done = ident(name.drop_last());
        law_ident_is_identifier(name.drop_last());
        reveal_strlit("_");
        reveal_strlit("0");
        lemma_digits_chars(c as nat, 16);
        assert forall|i: int| 0 <= i < ident(name).len() implies ident_char(
            #[trigger] ident(name)[i],
        ) by {
            if i < done.len() {
                assert(ident(name)[i] == done[i]);
            } else if !ident_char(c) && i > done.len() {
                let h = hex2(c as nat);
                assert(ident(name)[i] == h[i - done.len() - 1]);
                if (c as nat) < 16 {
                    if i > done.len() + 1 {
                        assert(h[i - done.len() - 1] == digits(c as nat, 16)[i - done.len() - 2]);
                    }
                }
            }
        }
    }
}

/// A name that is a C identifier already stays as it is.
pub proof fn law_ident_keeps_identifiers(name: Seq<char>)
    requires
        forall|i: int| 0 <= i < name.len() ==> ident_char(#[trigger] name[i]),
    ensures
        ident(name) == name,
    decreases name.len(),
{
    if name.len() > 0 {
        law_ident_keeps_identifiers(name.drop_last());
        assert(ident_char(name[name.len() - 1]));
        assert(name =~= name.drop_last().push(name.last()));
    } else {
        assert(name =~= Seq::empty());
    }
}

/// The C name of two names put together is made of the C names of both.
pub proof fn law_ident_goes_over_joining(a: Seq<char>, b: Seq<char>)
    ensures
        ident(a + b) == ident(a) + ident(b),
    decreases b.len(),
{
    if b.len() == 0 {
        reveal_strlit("");
        assert(a + b =~= a);
        assert(ident(a) + ident(b) =~= ident(a));
    } else {
        let p = b.drop_last();
        law_ident_goes_over_joining(a, p);
        assert((a + b).drop_last() =~= a + p);
        assert((a + b).last() == b.last());
        assert(ident(a + b) =~= ident(a) + ident(b));
    }
}

/// How a C compiler reads the inside of a string literal: `None` where a bare quote ends
/// the literal, else whether the text ends inside an escape.
pub open spec fn literal_state(s: Seq<char>) -> Option<bool>
    decreases s.len(),
{
    if s.len() == 0 {
        Some(false)
    } else {
        match literal_state(s.drop_last()) {
            None => None,
            Some(true) => Some(false),
            Some(false) => if s.last() == '"' {
                None
            } else {
                Some(s.last() == '\\')
            },
        }
    }
}

proof fn lemma_literal_push(s: Seq<char>, c: char)
    ensures
        literal_state(s.push(c)) == (match literal_state(s) {
            None => None,
            Some(true) => Some(false),
            Some(false) => if c == '"' {
                None
            } else {
                Some(c == '\\')
            },
        }),
{
    assert(s.push(c).drop_last() =~= s);
}

proof fn lemma_literal_digits(s: Seq<char>, h: Seq<char>)
    requires
        literal_state(s) == Some(false),
        forall|i: int| 0 <= i < h.len() ==> hex_char(#[trigger] h[i]),
    ensures
        literal_state(s + h) == Some(false),
    decreases h.len(),
{
    if h.len() == 0 {
        assert(s + h =~= s);
    } else {
        let p = h.drop_last();
        assert forall|i: int| 0 <= i < p.len() implies hex_char(#[trigger] p[i]) by {
            assert(hex_char(h[i]));
        }
        lemma_literal_digits(s, p);
        assert(hex_char(h[h.len() - 1]));
        assert(s + h =~= (s + p).push(h.last()));
        lemma_literal_push(s + p, h.last());
    }
}

proof fn lemma_literal_pair(s: Seq<char>, c: char)
    requires
        literal_state(s) == Some(false),
    ensures
        literal_state(s + seq!['\\', c]) == Some(false),
{
    lemma_literal_push(s, '\\');
    lemma_literal_push(s.push('\\'), c);
    assert(s + seq!['\\', c] =~= s.push('\\').push(c));
}

proof fn lemma_escaped_char(s: Seq<char>, c: char)
    requires
        literal_state(s) == Some(false),
    ensures
        literal_state(s + escaped_char(c)) == Some(false),
        forall|i: int|
            0 <= i < escaped_char(c).len() ==> (#[trigger] escaped_char(c)[i]) as nat >= 0x20,
{
    reveal_strlit("\\\\");
    reveal_strlit("\\\"");
    reveal_strlit("\\n");
    reveal_strlit("\\t");
    reveal_strlit("\\r");
    reveal_strlit("\\x");
    reveal_strlit("0");
    let e = escaped_char(c);
    if c == '\\' {
        assert(e =~= seq!['\\', '\\']);
        lemma_literal_pair(s, '\\');
    } else if c == '"' {
        assert(e =~= seq!['\\', '"']);
        lemma_literal_pair(s, '"');
    } else if c == '\n' {
        assert(e =~= seq!['\\', 'n']);
        lemma_literal_pair(s, 'n');
    } else if c == '\t' {
        assert(e =~= seq!['\\', 't']);
        lemma_literal_pair(s, 't');
    } else if c == '\r' {
        assert(e =~= seq!['\\', 'r']);
        lemma_literal_pair(s, 'r');
    } else if (c as nat) < 0x20 {
        let h = hex2(c as nat);
        lemma_digits_chars(c as nat, 16);
        let x = digits(c as nat, 16);
        assert forall|i: int| 0 <= i < h.len() implies hex_char(#[trigger] h[i]) by {
            if (c as nat) < 16 {
                if i > 0 {
                    assert(h[i] == x[i - 1]);
                }
            } else {
                assert(h[i] == x[i]);
            }
        }
        lemma_literal_pair(s, 'x');
        assert("\\x"@ =~= seq!['\\', 'x']);
        lemma_literal_digits(s + seq!['\\', 'x'], h);
        assert(s + e =~= s + seq!['\\', 'x'] + h);
        assert forall|i: int| 0 <= i < e.len() implies (#[trigger] e[i]) as nat >= 0x20 by {
            if i >= 2 {
                assert(e[i] == h[i - 2]);
                assert(hex_char(h[i - 2]));
            }
        }
    } else {
        lemma_literal_push(s, c);
        assert(s + e =~= s.push(c));
    }
}

/// An escaped text holds no control characters, and the C literal made of it ends at
/// its closing quote and nowhere before.
pub proof fn law_escaped_is_literal(s: Seq<char>)
    ensures
        literal_state(escaped(s)) == Some(false),
        forall|i: int| 0 <= i < escaped(s).len() ==> (#[trigger] escaped(s)[i]) as nat >= 0x20,
    decreases s.len(),
{
    if s.len() > 0 {
        let before = escaped(s.drop_last());
        let e = escaped_char(s.last());
        law_escaped_is_literal(s.drop_last());
        lemma_escaped_char(before, s.last());
        assert forall|i: int| 0 <= i < escaped(s).len() implies (#[trigger] escaped(s)[i]) as nat
            >= 0x20 by {
            if i < before.len() {
                assert(escaped(s)[i] == before[i]);
            } else {
                assert(escaped(s)[i] == e[i - before.len()]);
            }
        }
    }
}

/// A digit as C reads it in a hexadecimal escape.
pub open spec fn c_hex_digit(c: char) -> bool {
    ('0' <= c && c <= '9') || ('a' <= c && c <= 'f') || ('A' <= c && c <= 'F')
}

/// The value of a hexadecimal digit.
pub open spec fn c_hex_value(c: char) -> nat {
    if '0' <= c && c <= '9' {
        (c as nat - '0' as nat) as nat
    } else if 'a' <= c && c <= 'f' {
        (c as nat - 'a' as nat + 10) as nat
    } else {
        (c as nat - 'A' as nat + 10) as nat
    }
}

/// How many hexadecimal digits a text starts with, counted up to a limit.
pub open spec fn hex_run(t: Seq<char>, most: nat) -> nat
    decreases t.len(),
{
    if t.len() == 0 || most == 0 || !c_hex_digit(t[0]) {
        0
    } else {
        1 + hex_run(t.skip(1), (most - 1) as nat)
    }
}

/// The counted digits are part of the text.
pub proof fn lemma_hex_run(t: Seq<char>, most: nat)
    ensures
        hex_run(t, most) <= t.len(),
    decreases t.len(),
{
    if t.len() > 0 && most > 0 {
        lemma_hex_run(t.skip(1), (most - 1) as nat);
    }
}

/// The number that hexadecimal digits write.
pub open spec fn hex_number(t: Seq<char>) -> nat
    decreases t.len(),
{
    if t.len() == 0 {
        0
    } else {
        16 * hex_number(t.drop_last()) + c_hex_value(t.last())
    }
}

/// The text that the inside of a string literal stands for, where a hexadecimal escape takes
/// up to `most` of the digits that follow it.
pub open spec fn decoded(t: Seq<char>, most: nat) -> Seq<char>
    decreases t.len(),
{
    if t.len() == 0 {
        Seq::empty()
    } else if t[0] != '\\' || t.len() == 1 {
        seq![t[0]] + decoded(t.skip(1), most)
    } else if t[1] == 'x' {
        let n = hex_run(t.skip(2), most) as int;
        proof {
            lemma_hex_run(t.skip(2), most);
        }
        seq![hex_number(t.subrange(2, 2 + n)) as u8 as char] + decoded(t.skip(2 + n), most)
    } else {
        let c = if t[1] == 'n' {
            '\n'
        } else if t[1] == 't' {
            '\t'
        } else if t[1] == 'r' {
            '\r'
        } else {
            t[1]
        };
        seq![c] + decoded(t.skip(2), most)
    }
}

/// The text that the inside of a string literal stands for, hexadecimal escapes being two
/// digits long.
pub open spec fn unescaped(t: Seq<char>) -> Seq<char> {
    decoded(t, 2)
}

/// Whether a character is written as a hexadecimal escape.
pub open spec fn coded(c: char) -> bool {
    (c as nat) < 0x20 && c != '\n' && c != '\t' && c != '\r'
}

/// Whether no hexadecimal escape of the literal runs on into the character after it.
pub open spec fn codes_end(s: Seq<char>) -> bool {
    forall|i: int| 0 <= i < s.len() - 1 && coded(#[trigger] s[i]) ==> !c_hex_digit(s[i + 1])
}

proof fn lemma_escaped_front(s: Seq<char>)
    requires
        s.len() > 0,
    ensures
        escaped(s) == escaped_char(s[0]) + escaped(s.skip(1)),
    decreases s.len(),
{
    if s.len() == 1 {
        assert(s.drop_last() =~= Seq::empty());
        assert(s.skip(1) =~= Seq::empty());
        assert(escaped(s) =~= escaped_char(s[0]) + escaped(s.skip(1)));
    } else {
        let p = s.drop_last();
        lemma_escaped_front(p);
        assert(s.skip(1).drop_last() =~= p.skip(1));
        assert(escaped(s) =~= escaped_char(s[0]) + (escaped(p.skip(1)) + escaped_char(s.last())));
    }
}

/// The two digits of a control character's code.
proof fn lemma_code_digits(n: nat)
    requires
        n < 0x20,
    ensures
        hex2(n).len() == 2,
        c_hex_digit(hex2(n)[0]) && c_hex_digit(hex2(n)[1]),
        hex_number(hex2(n)) == n,
{
    reveal_strlit("0");
    let h = hex2(n);
    reveal_with_fuel(digits, 3);
    assert(h.len() == 2);
    assert(h.drop_last().drop_last() =~= Seq::empty());
    reveal_with_fuel(hex_number, 3);
}

proof fn lemma_decoded_front(c: char, rest: Seq<char>, most: nat)
    requires
        most >= 2,
        coded(c) && most > 2 && rest.len() > 0 ==> !c_hex_digit(rest[0]),
    ensures
        decoded(escaped_char(c) + rest, most) == seq![c] + decoded(rest, most),
{
    reveal_strlit("\\\\");
    reveal_strlit("\\\"");
    reveal_strlit("\\n");
    reveal_strlit("\\t");
    reveal_strlit("\\r");
    reveal_strlit("\\x");
    let e = escaped_char(c);
    let t = e + rest;
    if coded(c) {
        let h = hex2(c as nat);
        lemma_code_digits(c as nat);
        assert(t.skip(2) =~= h + rest);
        assert(t.skip(2).skip(1).skip(1) =~= rest);
        reveal_with_fuel(hex_run, 3);
        assert(hex_run(t.skip(2), most) == 2);
        assert(t.subrange(2, 4) =~= h);
        assert(t.skip(4) =~= rest);
    } else if e.len() == 1 {
        assert(t.skip(1) =~= rest);
    } else {
        assert(t.skip(2) =~= rest);
    }
}

proof fn lemma_decoded(s: Seq<char>, most: nat)
    requires
        most >= 2,
        most == 2 || codes_end(s),
    ensures
        decoded(escaped(s), most) == s,
    decreases s.len(),
{
    if s.len() > 0 {
        let rest = s.skip(1);
        if most > 2 {
            assert forall|i: int| 0 <= i < rest.len() - 1 && coded(
                #[trigger] rest[i],
            ) implies !c_hex_digit(rest[i + 1]) by {
                assert(coded(s[i + 1]));
            }
            if rest.len() > 0 {
                lemma_escaped_front(rest);
                reveal_strlit("\\\\");
                reveal_strlit("\\\"");
                reveal_strlit("\\n");
                reveal_strlit("\\t");
                reveal_strlit("\\r");
                reveal_strlit("\\x");
                assert(escaped_char(rest[0])[0] == rest[0] || escaped_char(rest[0])[0] == '\\');
                assert(coded(s[0]) ==> !c_hex_digit(s[1]));
            }
        }
        lemma_decoded(rest, most);
        lemma_escaped_front(s);
        lemma_decoded_front(s[0], escaped(rest), most);
        assert(seq![s[0]] + rest =~= s);
    }
}

/// Reading back what was escaped gives the text itself, whatever it holds.
pub proof fn law_escape_reads_back(s: Seq<char>)
    ensures
        unescaped(escaped(s)) == s,
{
    lemma_decoded(s, 2);
}

/// A C compiler, which takes every hexadecimal digit behind `\x`, reads the literal back as the
/// text itself too, where no control character written by its code stands before such a digit.
pub proof fn law_compiler_reads_back(s: Seq<char>)
    requires
        codes_end(s),
    ensures
        decoded(escaped(s), escaped(s).len()) == s,
{
    if escaped(s).len() >= 2 {
        lemma_decoded(s, escaped(s).len());
    } else if s.len() > 0 {
        let e = escaped(s);
        lemma_escaped_front(s);
        if s.len() > 1 {
            lemma_escaped_front(s.skip(1));
        }
        reveal_strlit("\\\\");
        reveal_strlit("\\\"");
        reveal_strlit("\\n");
        reveal_strlit("\\t");
        reveal_strlit("\\r");
        reveal_strlit("\\x");
        assert(s.skip(1) =~= Seq::empty());
        assert(e =~= s);
        assert(e.skip(1) =~= Seq::empty());
        assert(decoded(e.skip(1), 1) =~= Seq::empty());
        assert(decoded(e, 1) =~= s);
    }
}

/// What is part of a text is part of every longer one.
pub proof fn lemma_part_kept(a: Seq<char>, b: Seq<char>, part: Seq<char>)
    requires
        has_part(a, part),
    ensures
        has_part(a + b, part),
{
    let i = choose|i: int|
        0 <= i && i + part.len() <= a.len() && #[trigger] a.subrange(i, i + part.len()) == part;
    assert((a + b).subrange(i, i + part.len()) =~= a.subrange(i, i + part.len()));
}

/// What is part of a text is part of every text that ends with it.
pub proof fn lemma_part_after(a: Seq<char>, b: Seq<char>, part: Seq<char>)
    requires
        has_part(b, part),
    ensures
        has_part(a + b, part),
{
    let i = choose|i: int|
        0 <= i && i + part.len() <= b.len() && #[trigger] b.subrange(i, i + part.len()) == part;
    let k = a.len() + i;
    assert((a + b).subrange(k, k + part.len()) =~= b.subrange(i, i + part.len()));
}

/// A text is part of every one that ends with it.
pub proof fn lemma_part_last(a: Seq<char>, b: Seq<char>)
    ensures
        has_part(a + b, b),
{
    let k = a.len() as int;
    assert((a + b).subrange(k, k + b.len()) =~= b);
}

/// What is a part of one of two texts is a part of both together.
pub proof fn lemma_part_either(a: Seq<char>, b: Seq<char>, part: Seq<char>)
    ensures
        has_part(a, part) || has_part(b, part) ==> has_part(a + b, part),
{
    if has_part(a, part) {
        lemma_part_kept(a, b, part);
    } else if has_part(b, part) {
        lemma_part_after(a, b, part);
    }
}

/// A text is its part with what stands before and after it.
pub proof fn lemma_part_split(whole: Seq<char>, part: Seq<char>) -> (ends: (Seq<char>, Seq<char>))
    requires
        has_part(whole, part),
    ensures
        whole == ends.0 + part + ends.1,
{
    let i = choose|i: int|
        0 <= i && i + part.len() <= whole.len() && #[trigger] whole.subrange(i, i + part.len())
            == part;
    let before = whole.subrange(0, i);
    let after = whole.subrange(i + part.len(), whole.len() as int);
    assert(whole =~= before + part + after);
    (before, after)
}

} // verus!
