//! Reading the FTP server's replies: the text of a reply, the passive-mode
//! endpoint of a `227` reply, and the directory named by a `257` reply.
use vstd::prelude::*;
use vstd::utf8::{decode_utf8, valid_utf8};
use crate::text::{
    all_digits, chars_of, decimal, digit_char, digits_value, is_digit, is_white_space, parse_u16, parse_u16_chars, push_char,
    push_decimal, string_of, white_space,
};

verus! {

/// What `String::from_utf8_lossy` makes of a byte string.
pub uninterp spec fn lossy_utf8(bytes: Seq<u8>) -> Seq<char>;

/// `String::from_utf8_lossy`: decodes UTF-8, putting U+FFFD in place of each
/// invalid sequence. Its result is named `lossy_utf8`; of it, this states only
/// that a valid UTF-8 input is decoded exactly.
#[verifier::external_body]
fn decode_lossy(bytes: &[u8]) -> (s: String)
    ensures
        s@ == lossy_utf8(bytes@),
        valid_utf8(bytes@) ==> s@ == decode_utf8(bytes@),
{
    String::from_utf8_lossy(bytes).into_owned()
}

/// The text handed on for a message read from a connection: the bytes
/// received, decoded, or `Timeout` when nothing came in time (`None`).
pub open spec fn reply_text_of(received: Option<Seq<u8>>) -> Seq<char> {
    match received {
        Some(b) => lossy_utf8(b),
        None => "Timeout"@,
    }
}

/// The text of a message read from a connection; `None` means the read
/// timed out.
pub fn reply_text(received: Option<&[u8]>) -> (s: String)
    ensures
        s@ == reply_text_of(
            match received {
                Some(b) => Some(b@),
                None => None,
            },
        ),
        received matches Some(b) ==> (valid_utf8(b@) ==> s@ == decode_utf8(b@)),
        received matches Some(b) ==> s@ == lossy_utf8(b@),
        received is None ==> s@ == "Timeout"@,
{
    match received {
        Some(b) => decode_lossy(b),
        None => String::from_str("Timeout"),
    }
}

/// The position of the first `c` in `s`.
pub open spec fn first_index(s: Seq<char>, c: char) -> Option<int>
    decreases s.len(),
{
    if s.len() == 0 {
        None
    } else if s[0] == c {
        Some(0)
    } else {
        match first_index(s.drop_first(), c) {
            Some(i) => Some(i + 1),
            None => None,
        }
    }
}

proof fn lemma_first_index(s: Seq<char>, c: char)
    ensures
        match first_index(s, c) {
            Some(i) => 0 <= i < s.len() && s[i] == c && forall|j: int| 0 <= j < i ==> s[j] != c,
            None => forall|j: int| 0 <= j < s.len() ==> s[j] != c,
        },
    decreases s.len(),
{
    if s.len() > 0 && s[0] != c {
        lemma_first_index(s.drop_first(), c);
        match first_index(s.drop_first(), c) {
            Some(i) => {
                assert forall|j: int| 0 <= j < i + 1 implies s[j] != c by {
                    if j > 0 {
                        assert(s[j] == s.drop_first()[j - 1]);
                    }
                }
            },
            None => {
                assert forall|j: int| 0 <= j < s.len() implies s[j] != c by {
                    if j > 0 {
                        assert(s[j] == s.drop_first()[j - 1]);
                    }
                }
            },
        }
    }
}

fn find_char(v: &Vec<char>, c: char) -> (r: Option<usize>)
    ensures
        match r {
            Some(i) => first_index(v@, c) == Some(i as int),
            None => first_index(v@, c) is None,
        },
{
    proof {
        lemma_first_index(v@, c);
    }
    let mut i: usize = 0;
    while i < v.len()
        invariant
            i <= v.len(),
            forall|j: int| 0 <= j < i ==> v@[j] != c,
        decreases v.len() - i,
    {
        if v[i] == c {
            proof {
                lemma_first_index(v@, c);
            }
            return Some(i);
        }
        i = i + 1;
    }
    None
}

/// `s` cut at each `sep`, as `str::split` cuts it: `k` separators give
/// `k + 1` pieces, some of them possibly empty.
pub open spec fn split_at_char(s: Seq<char>, sep: char) -> Seq<Seq<char>>
    decreases s.len(),
{
    if s.len() == 0 {
        seq![Seq::<char>::empty()]
    } else {
        let init = split_at_char(s.drop_last(), sep);
        if s.last() == sep {
            init.push(Seq::<char>::empty())
        } else {
            init.update(init.len() - 1, init.last().push(s.last()))
        }
    }
}

proof fn lemma_split_nonempty(s: Seq<char>, sep: char)
    ensures
        split_at_char(s, sep).len() >= 1,
    decreases s.len(),
{
    if s.len() > 0 {
        lemma_split_nonempty(s.drop_last(), sep);
    }
}

/// Each piece read as a `u16`; `None` if any piece is not one.
pub open spec fn parse_pieces(pieces: Seq<Seq<char>>) -> Option<Seq<u16>>
    decreases pieces.len(),
{
    if pieces.len() == 0 {
        Some(Seq::<u16>::empty())
    } else {
        match (parse_pieces(pieces.drop_last()), parse_u16(pieces.last())) {
            (Some(init), Some(x)) => Some(init.push(x)),
            _ => None,
        }
    }
}

/// The numbers between the first `(` and the first `)` of a passive-mode
/// reply, read as `u16`s; `None` unless every comma-separated piece is one.
pub open spec fn pasv_numbers(reply: Seq<char>) -> Option<Seq<u16>> {
    match (first_index(reply, '('), first_index(reply, ')')) {
        (Some(open), Some(close)) => if open + 1 <= close {
            parse_pieces(split_at_char(reply.subrange(open + 1, close), ','))
        } else {
            None
        },
        _ => None,
    }
}

/// `a.b.c.d` from the first four numbers.
pub open spec fn dotted_quad(p: Seq<u16>) -> Seq<char> {
    decimal(p[0] as nat) + seq!['.'] + decimal(p[1] as nat) + seq!['.'] + decimal(p[2] as nat)
        + seq!['.'] + decimal(p[3] as nat)
}

/// The data endpoint announced by a passive-mode reply: the host from the
/// first four numbers, the port `p4 * 256 + p5`. `None` where the reply names
/// no endpoint: no `(` or `)`, `)` before `(`, a piece that is not a `u16`,
/// fewer than six numbers, or a port beyond `u16`.
pub open spec fn pasv_endpoint(reply: Seq<char>) -> Option<(Seq<char>, u16)> {
    match pasv_numbers(reply) {
        Some(p) => if p.len() >= 6 && p[4] * 256 + p[5] <= 65535 {
            Some((dotted_quad(p), (p[4] * 256 + p[5]) as u16))
        } else {
            None
        },
        None => None,
    }
}

/// A data endpoint: host and port.
#[derive(Debug, PartialEq, Eq)]
pub struct PassiveEndpoint {
    pub ip: String,
    pub port: u16,
}

/// Reads the endpoint of a passive-mode (`PASV`) reply.
pub fn parse_pasv_reply(reply: &str) -> (r: Option<PassiveEndpoint>)
    ensures
        match r {
            Some(e) => pasv_endpoint(reply@) == Some((e.ip@, e.port)),
            None => pasv_endpoint(reply@) is None,
        },
{
    let v = chars_of(reply);
    let open = match find_char(&v, '(') {
        Some(i) => i,
        None => return None,
    };
    proof {
        lemma_first_index(v@, '(');
    }
    let close = match find_char(&v, ')') {
        Some(i) => i,
        None => return None,
    };
    if open >= close {
        return None;
    }
    proof {
        lemma_first_index(v@, ')');
    }
    let ghost data = v@.subrange(open + 1, close as int);
    let mut parts: Vec<u16> = Vec::new();
    let mut piece: Vec<char> = Vec::new();
    let mut ok = true;
    let ghost mut done: Seq<Seq<char>> = Seq::empty();
    let mut i: usize = open + 1;
    while i < close
        invariant
            open + 1 <= i <= close,
            close < v.len(),
            data == v@.subrange(open + 1, close as int),
            split_at_char(data.take(i - open - 1), ',') == done.push(piece@),
            ok ==> parse_pieces(done) == Some(parts@),
            !ok ==> parse_pieces(done) is None,
        decreases close - i,
    {
        let c = v[i];
        let ghost pre = data.take(i - open - 1);
        let ghost post = data.take(i + 1 - open - 1);
        assert(post.drop_last() == pre);
        assert(post.last() == c);
        if c == ',' {
            let ghost old_done = done;
            proof {
                done = done.push(piece@);
                assert(done.drop_last() == old_done);
                assert(done.last() == piece@);
            }
            if ok {
                match parse_u16_chars(&piece) {
                    Some(x) => parts.push(x),
                    None => ok = false,
                }
            }
            piece = Vec::new();
            assert(split_at_char(post, ',') == done.push(piece@));
        } else {
            piece.push(c);
            assert(split_at_char(post, ',') == done.push(piece@));
        }
        i = i + 1;
    }
    assert(data.take(close - open - 1) == data);
    let ghost pieces = done.push(piece@);
    assert(pieces.drop_last() == done);
    if !ok {
        return None;
    }
    let last = match parse_u16_chars(&piece) {
        Some(x) => x,
        None => return None,
    };
    parts.push(last);
    assert(pasv_numbers(reply@) == Some(parts@));
    if parts.len() < 6 {
        return None;
    }
    let high = parts[4] as u32;
    let low = parts[5] as u32;
    if high * 256 + low > 65535 {
        return None;
    }
    let port = (high * 256 + low) as u16;
    let mut ip = String::new();
    push_decimal(&mut ip, parts[0] as u64);
    push_char(&mut ip, '.');
    push_decimal(&mut ip, parts[1] as u64);
    push_char(&mut ip, '.');
    push_decimal(&mut ip, parts[2] as u64);
    push_char(&mut ip, '.');
    push_decimal(&mut ip, parts[3] as u64);
    assert(ip@ == dotted_quad(parts@));
    Some(PassiveEndpoint { ip, port })
}

/// The words of `s`: its maximal runs of characters that are not white
/// space, in order (what `str::split_whitespace` yields).
pub open spec fn words(s: Seq<char>) -> Seq<Seq<char>>
    decreases s.len(),
{
    if s.len() == 0 {
        Seq::empty()
    } else {
        let w = words(s.drop_last());
        let c = s.last();
        if is_white_space(c) {
            w
        } else if s.len() >= 2 && !is_white_space(s[s.len() - 2]) {
            w.update(w.len() - 1, w.last().push(c))
        } else {
            w.push(seq![c])
        }
    }
}

/// `s` without its leading `"` characters.
pub open spec fn trim_leading_quotes(s: Seq<char>) -> Seq<char>
    decreases s.len(),
{
    if s.len() > 0 && s[0] == '"' {
        trim_leading_quotes(s.drop_first())
    } else {
        s
    }
}

/// `s` without its trailing `"` characters.
pub open spec fn trim_trailing_quotes(s: Seq<char>) -> Seq<char>
    decreases s.len(),
{
    if s.len() > 0 && s.last() == '"' {
        trim_trailing_quotes(s.drop_last())
    } else {
        s
    }
}

/// `str::trim_matches('"')`.
pub open spec fn trim_quotes(s: Seq<char>) -> Seq<char> {
    trim_trailing_quotes(trim_leading_quotes(s))
}

/// The directory named by a `PWD` reply such as `257 "/home/me" is current
/// directory`: its second word without surrounding quotes, or `/` where the
/// reply has fewer than two words.
pub open spec fn pwd_directory_of(reply: Seq<char>) -> Seq<char> {
    let w = words(reply);
    if w.len() >= 2 {
        trim_quotes(w[1])
    } else {
        trim_quotes(seq!['/'])
    }
}

fn second_word(v: &Vec<char>) -> (r: Option<Vec<char>>)
    ensures
        match r {
            Some(w) => words(v@).len() >= 2 && w@ == words(v@)[1],
            None => words(v@).len() < 2,
        },
{
    let mut count: usize = 0;
    let mut second: Vec<char> = Vec::new();
    let mut i: usize = 0;
    while i < v.len()
        invariant
            i <= v.len(),
            count as int == words(v@.take(i as int)).len(),
            count <= i,
            i > 0 && !is_white_space(v@[i - 1]) ==> count > 0,
            count >= 2 ==> second@ == words(v@.take(i as int))[1],
        decreases v.len() - i,
    {
        let c = v[i];
        let ghost pre = v@.take(i as int);
        let ghost post = v@.take(i + 1);
        assert(post.drop_last() == pre);
        assert(post.last() == c);
        if white_space(c) {
        } else if i > 0 && !white_space(v[i - 1]) {
            assert(post[post.len() - 2] == v@[i - 1]);
            if count == 2 {
                second.push(c);
            }
        } else {
            if i > 0 {
                assert(post[post.len() - 2] == v@[i - 1]);
            }
            count = count + 1;
            if count == 2 {
                second = Vec::new();
                second.push(c);
                assert(second@ == seq![c]);
            }
        }
        i = i + 1;
    }
    assert(v@.take(v.len() as int) == v@);
    if count >= 2 {
        Some(second)
    } else {
        None
    }
}

fn trim_quote_chars(v: &Vec<char>) -> (r: Vec<char>)
    ensures
        r@ == trim_quotes(v@),
{
    let n = v.len();
    let mut lo: usize = 0;
    assert(v@.skip(0) == v@);
    while lo < n && v[lo] == '"'
        invariant
            n == v.len(),
            lo <= n,
            trim_leading_quotes(v@) == trim_leading_quotes(v@.skip(lo as int)),
        decreases n - lo,
    {
        assert(v@.skip(lo as int).drop_first() == v@.skip(lo + 1));
        lo = lo + 1;
    }
    let ghost rest = v@.skip(lo as int);
    assert(trim_leading_quotes(v@) == rest);
    let mut hi: usize = n;
    while hi > lo && v[hi - 1] == '"'
        invariant
            n == v.len(),
            lo <= hi <= n,
            rest == v@.skip(lo as int),
            trim_trailing_quotes(rest) == trim_trailing_quotes(v@.subrange(lo as int, hi as int)),
        decreases hi - lo,
    {
        assert(v@.subrange(lo as int, hi as int).drop_last() == v@.subrange(lo as int, hi - 1));
        hi = hi - 1;
    }
    assert(v@.subrange(lo as int, n as int) == rest);
    let mut r: Vec<char> = Vec::new();
    let mut k: usize = lo;
    while k < hi
        invariant
            lo <= k <= hi <= n,
            n == v.len(),
            r@ == v@.subrange(lo as int, k as int),
        decreases hi - k,
    {
        r.push(v[k]);
        assert(v@.subrange(lo as int, k + 1) == v@.subrange(lo as int, k as int).push(v@[k as int]));
        k = k + 1;
    }
    r
}

/// The directory named by a `PWD` reply (see `pwd_directory_of`).
pub fn pwd_directory(reply: &str) -> (dir: String)
    ensures
        dir@ == pwd_directory_of(reply@),
{
    let v = chars_of(reply);
    let word = match second_word(&v) {
        Some(w) => w,
        None => {
            let mut root: Vec<char> = Vec::new();
            root.push('/');
            assert(root@ == seq!['/']);
            root
        },
    };
    let trimmed = trim_quote_chars(&word);
    string_of(&trimmed)
}

/// The numbers written in decimal and separated by commas.
pub open spec fn comma_list(p: Seq<u16>) -> Seq<char>
    decreases p.len(),
{
    if p.len() <= 1 {
        if p.len() == 1 {
            decimal(p[0] as nat)
        } else {
            Seq::empty()
        }
    } else {
        comma_list(p.drop_last()) + seq![','] + decimal(p.last() as nat)
    }
}

/// A passive-mode reply as a server writes it: some text, then the six
/// numbers in parentheses, then more text.
pub open spec fn announcement(before: Seq<char>, p: Seq<u16>, after: Seq<char>) -> Seq<char> {
    before + seq!['('] + comma_list(p) + seq![')'] + after
}

proof fn lemma_decimal_digits(n: nat)
    ensures
        decimal(n).len() > 0,
        all_digits(decimal(n)),
        digits_value(decimal(n)) == n,
        n > 0 ==> decimal(n)[0] != '0',
    decreases n,
{
    let d = n % 10;
    assert(digit_char(d as int) as int == d + '0' as int);
    if n >= 10 {
        lemma_decimal_digits(n / 10);
        let s = decimal(n);
        assert(s.drop_last() == decimal(n / 10));
        assert(s.last() == digit_char(d as int));
        assert((n / 10) * 10 + n % 10 == n) by (nonlinear_arith);
        assert(digits_value(s) == digits_value(decimal(n / 10)) * 10 + d);
        assert forall|i: int| 0 <= i < s.len() implies is_digit(#[trigger] s[i]) by {
            if i < s.len() - 1 {
                assert(s[i] == decimal(n / 10)[i]);
            }
        }
        assert(s[0] == decimal(n / 10)[0]);
    } else {
        let s = decimal(n);
        assert(s.drop_last() =~= Seq::<char>::empty());
        assert(digits_value(Seq::<char>::empty()) == 0);
        assert(n % 10 == n);
        assert(s.last() == digit_char(d as int));
        assert(digits_value(s) == d);
    }
}

proof fn lemma_parse_decimal(n: u16)
    ensures
        parse_u16(decimal(n as nat)) == Some(n),
{
    lemma_decimal_digits(n as nat);
    assert(is_digit(decimal(n as nat)[0]));
}

/// The characters of a comma list are digits and commas.
proof fn lemma_comma_list_chars(p: Seq<u16>)
    ensures
        forall|i: int|
            0 <= i < comma_list(p).len() ==> is_digit(#[trigger] comma_list(p)[i]) || comma_list(
                p,
            )[i] == ',',
    decreases p.len(),
{
    if p.len() == 1 {
        lemma_decimal_digits(p[0] as nat);
    } else if p.len() > 1 {
        lemma_comma_list_chars(p.drop_last());
        lemma_decimal_digits(p.last() as nat);
        let a = comma_list(p.drop_last());
        let b = decimal(p.last() as nat);
        assert forall|i: int| 0 <= i < comma_list(p).len() implies is_digit(
            #[trigger] comma_list(p)[i],
        ) || comma_list(p)[i] == ',' by {
            if i < a.len() {
                assert(comma_list(p)[i] == a[i]);
            } else if i > a.len() {
                assert(comma_list(p)[i] == b[i - a.len() - 1]);
            }
        }
    }
}

/// Splitting `x + t`, where `t` holds no separator, extends the last piece
/// of `x` by `t`.
proof fn lemma_split_append(x: Seq<char>, t: Seq<char>, sep: char)
    requires
        forall|i: int| 0 <= i < t.len() ==> t[i] != sep,
    ensures
        split_at_char(x + t, sep) == split_at_char(x, sep).update(
            split_at_char(x, sep).len() - 1,
            split_at_char(x, sep).last() + t,
        ),
    decreases t.len(),
{
    lemma_split_nonempty(x, sep);
    if t.len() == 0 {
        assert(x + t == x);
        assert(split_at_char(x, sep).last() + t == split_at_char(x, sep).last());
        assert(split_at_char(x, sep).update(
            split_at_char(x, sep).len() - 1,
            split_at_char(x, sep).last(),
        ) == split_at_char(x, sep));
    } else {
        let t0 = t.drop_last();
        lemma_split_append(x, t0, sep);
        assert((x + t).drop_last() == x + t0);
        assert((x + t).last() == t.last());
        assert(split_at_char(x, sep).last() + t == (split_at_char(x, sep).last() + t0).push(
            t.last(),
        ));
    }
}

proof fn lemma_split_comma_list(p: Seq<u16>)
    requires
        p.len() >= 1,
    ensures
        split_at_char(comma_list(p), ',') == p.map_values(|n: u16| decimal(n as nat)),
    decreases p.len(),
{
    let last = decimal(p.last() as nat);
    lemma_decimal_digits(p.last() as nat);
    assert forall|i: int| 0 <= i < last.len() implies last[i] != ',' by {
        assert(is_digit(last[i]));
    }
    if p.len() == 1 {
        let e = Seq::<char>::empty();
        lemma_split_append(e, last, ',');
        assert(e + last == last);
        assert(split_at_char(e, ',') == seq![e]);
        assert(e + last == last);
    } else {
        let x = comma_list(p.drop_last());
        lemma_split_comma_list(p.drop_last());
        let xs = x + seq![','];
        lemma_split_append(xs, last, ',');
        assert(xs.drop_last() == x);
        assert(xs.last() == ',');
        assert(comma_list(p) == xs + last);
        lemma_split_nonempty(x, ',');
        assert(Seq::<char>::empty() + last == last);
        assert(p.map_values(|n: u16| decimal(n as nat)) == p.drop_last().map_values(
            |n: u16| decimal(n as nat),
        ).push(last));
    }
}

proof fn lemma_parse_decimals(p: Seq<u16>)
    ensures
        parse_pieces(p.map_values(|n: u16| decimal(n as nat))) == Some(p),
    decreases p.len(),
{
    let m = p.map_values(|n: u16| decimal(n as nat));
    if p.len() > 0 {
        lemma_parse_decimals(p.drop_last());
        lemma_parse_decimal(p.last());
        assert(m.drop_last() == p.drop_last().map_values(|n: u16| decimal(n as nat)));
        assert(p.drop_last().push(p.last()) == p);
    }
}

/// A passive-mode reply written as servers write it is read back exactly:
/// the six numbers in parentheses, after text without parentheses, give the
/// host `p0.p1.p2.p3` and the port `p4 * 256 + p5`.
pub proof fn law_announced_endpoint_is_read_back(before: Seq<char>, p: Seq<u16>, after: Seq<char>)
    requires
        p.len() == 6,
        p[4] * 256 + p[5] <= 65535,
        forall|i: int| 0 <= i < before.len() ==> before[i] != '(' && before[i] != ')',
    ensures
        pasv_endpoint(announcement(before, p, after)) == Some(
            (
                decimal(p[0] as nat) + seq!['.'] + decimal(p[1] as nat) + seq!['.'] + decimal(
                    p[2] as nat,
                ) + seq!['.'] + decimal(p[3] as nat),
                (p[4] * 256 + p[5]) as u16,
            ),
        ),
{
    let s = announcement(before, p, after);
    let list = comma_list(p);
    let open = before.len() as int;
    let close = open + 1 + list.len();
    lemma_comma_list_chars(p);
    assert(s[open] == '(');
    assert(s[close] == ')');
    assert forall|j: int| 0 <= j < open implies s[j] != '(' && s[j] != ')' by {
        assert(s[j] == before[j]);
    }
    assert forall|j: int| open < j < close implies s[j] != ')' by {
        assert(s[j] == list[j - open - 1]);
    }
    lemma_first_index(s, '(');
    lemma_first_index(s, ')');
    assert(first_index(s, '(') == Some(open));
    assert(first_index(s, ')') == Some(close));
    assert(s.subrange(open + 1, close) == list);
    lemma_split_comma_list(p);
    lemma_parse_decimals(p);
}

proof fn lemma_words_nonempty(s: Seq<char>)
    requires
        s.len() > 0,
        !is_white_space(s.last()),
    ensures
        words(s).len() > 0,
    decreases s.len(),
{
    if s.len() >= 2 && !is_white_space(s[s.len() - 2]) {
        lemma_words_nonempty(s.drop_last());
    }
}

/// The words of `a + b`, where `a` is empty or ends in white space, are
/// those of `a` followed by those of `b`.
proof fn lemma_words_append(a: Seq<char>, b: Seq<char>)
    requires
        a.len() == 0 || is_white_space(a.last()),
    ensures
        words(a + b) == words(a) + words(b),
    decreases b.len(),
{
    if b.len() == 0 {
        assert(a + b == a);
        assert(words(b) == Seq::<Seq<char>>::empty());
        assert(words(a) + words(b) == words(a));
    } else {
        let b0 = b.drop_last();
        let c = b.last();
        lemma_words_append(a, b0);
        let ab = a + b;
        assert(ab.drop_last() == a + b0);
        assert(ab.last() == c);
        if !is_white_space(c) {
            if b.len() >= 2 {
                assert(ab[ab.len() - 2] == b[b.len() - 2]);
                if !is_white_space(b[b.len() - 2]) {
                    assert(b0.last() == b[b.len() - 2]);
                    lemma_words_nonempty(b0);
                }
            } else if a.len() > 0 {
                assert(ab[ab.len() - 2] == a.last());
                assert(b0.len() == 0);
            }
        }
    }
}

/// A word without white space is one word.
proof fn lemma_single_word(w: Seq<char>)
    requires
        w.len() > 0,
        forall|i: int| 0 <= i < w.len() ==> !is_white_space(#[trigger] w[i]),
    ensures
        words(w) == seq![w],
    decreases w.len(),
{
    if w.len() == 1 {
        assert(w.drop_last().len() == 0);
        assert(words(w.drop_last()) == Seq::<Seq<char>>::empty());
        assert(seq![w.last()] == w);
    } else {
        let w0 = w.drop_last();
        assert forall|i: int| 0 <= i < w0.len() implies !is_white_space(#[trigger] w0[i]) by {
            assert(w0[i] == w[i]);
        }
        lemma_single_word(w0);
        assert(!is_white_space(w[w.len() - 2]));
        assert(!is_white_space(w[w.len() - 1]));
        assert(w0.push(w.last()) == w);
    }
}

proof fn lemma_word_then_space(w: Seq<char>, sp: char)
    requires
        w.len() > 0,
        forall|i: int| 0 <= i < w.len() ==> !is_white_space(#[trigger] w[i]),
        is_white_space(sp),
    ensures
        words(w.push(sp)) == seq![w],
{
    lemma_single_word(w);
    assert(w.push(sp).drop_last() == w);
}

/// A `PWD` reply written as servers write it is read back: after a code
/// without white space and one space, the directory in quotes, then nothing
/// or white space and any text. The directory is read back exactly when it
/// holds no white space and no quote.
pub proof fn law_quoted_directory_is_read_back(code: Seq<char>, dir: Seq<char>, tail: Seq<char>)
    requires
        code.len() > 0,
        forall|i: int| 0 <= i < code.len() ==> !is_white_space(#[trigger] code[i]),
        forall|i: int|
            0 <= i < dir.len() ==> !is_white_space(#[trigger] dir[i]) && dir[i] != '"',
        tail.len() == 0 || is_white_space(tail[0]),
    ensures
        pwd_directory_of(code + seq![' '] + seq!['"'] + dir + seq!['"'] + tail) == dir,
{
    let q = seq!['"'] + dir + seq!['"'];
    let a = code.push(' ');
    let reply = code + seq![' '] + seq!['"'] + dir + seq!['"'] + tail;
    assert(reply == a + (q + tail));
    assert(is_white_space(' '));
    assert(!is_white_space('"'));
    assert forall|i: int| 0 <= i < q.len() implies !is_white_space(#[trigger] q[i]) by {
        if 0 < i < q.len() - 1 {
            assert(q[i] == dir[i - 1]);
        }
    }
    lemma_words_append(a, q + tail);
    lemma_word_then_space(code, ' ');
    if tail.len() == 0 {
        assert(q + tail == q);
        lemma_single_word(q);
    } else {
        let qa = q.push(tail[0]);
        assert(q + tail == qa + tail.skip(1));
        lemma_words_append(qa, tail.skip(1));
        lemma_word_then_space(q, tail[0]);
    }
    assert(words(reply)[1] == q);
    assert(words(reply).len() >= 2);
    let r = dir + seq!['"'];
    assert(q[0] == '"');
    assert(q.drop_first() == r);
    assert(trim_leading_quotes(q) == trim_leading_quotes(r));
    if dir.len() == 0 {
        let e = Seq::<char>::empty();
        assert(r == seq!['"']);
        assert(r.drop_first() == e);
        assert(trim_leading_quotes(r) == trim_leading_quotes(e));
        assert(trim_leading_quotes(e) == e);
        assert(trim_trailing_quotes(e) == e);
        assert(e == dir);
    } else {
        assert(r[0] == dir[0]);
        assert(trim_leading_quotes(r) == r);
        assert(r.last() == '"');
        assert(r.drop_last() == dir);
        assert(trim_trailing_quotes(r) == trim_trailing_quotes(dir));
        assert(dir.last() == dir[dir.len() - 1]);
        assert(trim_trailing_quotes(dir) == dir);
    }
    assert(trim_quotes(q) == dir);
}

/// Every `u16` written in decimal is read back as itself, and its decimal
/// form is digits only, without a leading zero.
pub proof fn law_decimal_reads_back(n: u16)
    ensures
        parse_u16(decimal(n as nat)) == Some(n),
        all_digits(decimal(n as nat)),
        decimal(n as nat).len() > 0,
        n > 0 ==> decimal(n as nat)[0] != '0',
{
    lemma_decimal_digits(n as nat);
    lemma_parse_decimal(n);
}

} // verus!
