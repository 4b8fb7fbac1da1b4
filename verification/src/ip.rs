//! IP addresses as the standard library reads and writes them: dotted
//! quads with strict octets, and IPv6 in its textual forms (groups of up to
//! four hex digits, one `::` standing for at least one zero group, and a
//! final dotted quad).
use vstd::prelude::*;
use crate::text::{
    all_digits, decimal, digit_char, digit_value, digits_value, hex_digit, is_digit, push_char, push_decimal, split_on,
    split_seq, views_of,
};

verus! {

/// A strict decimal octet: one to three digits, no leading zero, at most 255.
pub open spec fn dec_octet_ok(g: Seq<char>) -> bool {
    1 <= g.len() <= 3 && all_digits(g) && digits_value(g) <= 255 && !(g.len() > 1 && g[0] == '0')
}

/// The four octets of a dotted quad, if `s` is one.
pub open spec fn ipv4_spec(s: Seq<char>) -> Option<Seq<u8>> {
    let parts = split_seq(s, '.');
    if parts.len() == 4 && forall|i: int| 0 <= i < 4 ==> dec_octet_ok(#[trigger] parts[i]) {
        Some(Seq::new(4, |i: int| digits_value(parts[i]) as u8))
    } else {
        None
    }
}

pub open spec fn is_hex(c: char) -> bool {
    ('0' <= c && c <= '9') || ('a' <= c && c <= 'f') || ('A' <= c && c <= 'F')
}

pub open spec fn hex_value(c: char) -> nat {
    if '0' <= c && c <= '9' {
        ((c as u32) - ('0' as u32)) as nat
    } else if 'a' <= c && c <= 'f' {
        ((c as u32) - ('a' as u32) + 10) as nat
    } else {
        ((c as u32) - ('A' as u32) + 10) as nat
    }
}

pub open spec fn hex_digits_value(s: Seq<char>) -> nat
    decreases s.len(),
{
    if s.len() == 0 { 0 } else { hex_digits_value(s.drop_last()) * 16 + hex_value(s.last()) }
}

/// A group of one to four hex digits.
pub open spec fn hex_group_ok(g: Seq<char>) -> bool {
    1 <= g.len() <= 4 && forall|i: int| 0 <= i < g.len() ==> is_hex(#[trigger] g[i])
}

/// The 16-bit values that a `:`-separated run of groups stands for; the last
/// piece may be a dotted quad (two values) when `allow_v4` holds.
pub open spec fn groups_spec(part: Seq<char>, allow_v4: bool) -> Option<Seq<u16>> {
    if part.len() == 0 {
        Some(seq![])
    } else {
        let els = split_seq(part, ':');
        let n = els.len();
        let init = Seq::new((n - 1) as nat, |i: int| hex_digits_value(els[i]) as u16);
        if !(forall|i: int| 0 <= i < n - 1 ==> hex_group_ok(#[trigger] els[i])) {
            None
        } else if hex_group_ok(els[n - 1]) {
            Some(init.push(hex_digits_value(els[n - 1]) as u16))
        } else if allow_v4 && ipv4_spec(els[n - 1]) is Some {
            let q = ipv4_spec(els[n - 1])->Some_0;
            Some(init + seq![(q[0] * 256 + q[1]) as u16, (q[2] * 256 + q[3]) as u16])
        } else {
            None
        }
    }
}

/// The first position from `i` on where `::` starts.
pub open spec fn double_colon_from(s: Seq<char>, i: int) -> Option<int>
    decreases s.len() - i,
{
    if i < 0 || i + 1 >= s.len() {
        None
    } else if s[i] == ':' && s[i + 1] == ':' {
        Some(i)
    } else {
        double_colon_from(s, i + 1)
    }
}

/// The eight groups of an IPv6 address, if `s` is one.
pub open spec fn ipv6_spec(s: Seq<char>) -> Option<Seq<u16>> {
    match double_colon_from(s, 0) {
        Some(k) => match (groups_spec(s.take(k), false), groups_spec(s.skip(k + 2), true)) {
            (Some(h), Some(t)) => if h.len() + t.len() <= 7 {
                Some(h + Seq::new((8 - h.len() - t.len()) as nat, |i: int| 0u16) + t)
            } else {
                None
            },
            _ => None,
        },
        None => match groups_spec(s, true) {
            Some(g) => if g.len() == 8 { Some(g) } else { None },
            None => None,
        },
    }
}

/// An IP address: four octets or eight 16-bit groups.
#[derive(Debug)]
pub enum IpAddr {
    V4(Vec<u8>),
    V6(Vec<u16>),
}

pub enum IpView {
    V4(Seq<u8>),
    V6(Seq<u16>),
}

impl View for IpAddr {
    type V = IpView;

    open spec fn view(&self) -> IpView {
        match self {
            IpAddr::V4(o) => IpView::V4(o@),
            IpAddr::V6(g) => IpView::V6(g@),
        }
    }
}

/// What `str::parse::<std::net::IpAddr>` gives: a dotted quad, else an IPv6
/// address. (No string is both: an IPv6 text holds a `:`.)
pub open spec fn ip_spec(s: Seq<char>) -> Option<IpView> {
    match ipv4_spec(s) {
        Some(q) => Some(IpView::V4(q)),
        None => match ipv6_spec(s) {
            Some(g) => Some(IpView::V6(g)),
            None => None,
        },
    }
}

fn dec_octet(g: &[char]) -> (r: Option<u8>)
    ensures
        match r {
            Some(v) => dec_octet_ok(g@) && v as nat == digits_value(g@),
            None => !dec_octet_ok(g@),
        },
{
    if g.len() < 1 || g.len() > 3 {
        return None;
    }
    if g.len() > 1 && g[0] == '0' {
        return None;
    }
    let mut v: u32 = 0;
    let mut i: usize = 0;
    while i < g.len()
        invariant
            i <= g.len() <= 3,
            all_digits(g@.take(i as int)),
            v as nat == digits_value(g@.take(i as int)),
            v < 1000,
        decreases g.len() - i,
    {
        let c = g[i];
        assert(g@.take(i + 1).drop_last() =~= g@.take(i as int));
        if !('0' <= c && c <= '9') {
            assert(!is_digit(g@[i as int]));
            return None;
        }
        assert(g@.take(i as int + 1)[i as int] == c);
        assert(v < 100) by {
            if i >= 3 {
                assert(false);
            }
            assert(digits_value(g@.take(i as int)) < 100) by {
                lemma_digits_bound(g@.take(i as int));
            }
        }
        v = v * 10 + (c as u32 - '0' as u32);
        i = i + 1;
    }
    assert(g@.take(g.len() as int) =~= g@);
    if v > 255 {
        return None;
    }
    Some(v as u8)
}

proof fn lemma_digits_bound(s: Seq<char>)
    requires
        all_digits(s),
        s.len() <= 2,
    ensures
        digits_value(s) < 100,
{
    if s.len() >= 1 {
        assert(is_digit(s[0]));
        assert(digit_value(s[0]) <= 9);
        let t = s.take(1);
        assert(t.drop_last().len() == 0);
        assert(digits_value(t.drop_last()) == 0);
        assert(t.last() == s[0]);
        assert(digits_value(t) == digit_value(s[0]));
        if s.len() == 1 {
            assert(s =~= t);
        } else {
            assert(is_digit(s[1]));
            assert(digit_value(s[1]) <= 9);
            assert(s.drop_last() =~= t);
            assert(s.last() == s[1]);
            assert(digits_value(s) == digits_value(t) * 10 + digit_value(s[1]));
        }
    }
}

/// Reads a dotted quad.
pub fn parse_ipv4(s: &[char]) -> (r: Option<Vec<u8>>)
    ensures
        match r {
            Some(q) => ipv4_spec(s@) == Some(q@),
            None => ipv4_spec(s@) is None,
        },
{
    let parts = split_on(s, '.');
    let ghost pv = views_of(parts@);
    assert(pv.len() == parts@.len());
    if parts.len() != 4 {
        return None;
    }
    let mut out: Vec<u8> = Vec::new();
    let mut i: usize = 0;
    while i < 4
        invariant
            parts@.len() == 4,
            pv == views_of(parts@),
            pv == split_seq(s@, '.'),
            i <= 4,
            out@.len() == i,
            forall|k: int| 0 <= k < i ==> dec_octet_ok(#[trigger] pv[k]) && out@[k] as nat == digits_value(pv[k]),
        decreases 4 - i,
    {
        assert(pv[i as int] == parts@[i as int]@);
        match dec_octet(parts[i].as_slice()) {
            None => {
                return None;
            },
            Some(v) => {
                out.push(v);
            },
        }
        i = i + 1;
    }
    assert(out@ =~= Seq::new(4, |k: int| digits_value(pv[k]) as u8));
    Some(out)
}

fn hex_char_value(c: char) -> (r: Option<u16>)
    ensures
        r is Some <==> is_hex(c),
        r matches Some(v) ==> v as nat == hex_value(c) && v < 16,
{
    if '0' <= c && c <= '9' {
        Some((c as u32 - '0' as u32) as u16)
    } else if 'a' <= c && c <= 'f' {
        Some((c as u32 - 'a' as u32 + 10) as u16)
    } else if 'A' <= c && c <= 'F' {
        Some((c as u32 - 'A' as u32 + 10) as u16)
    } else {
        None
    }
}

spec fn pow16(i: int) -> int {
    if i <= 0 { 1 } else if i == 1 { 16 } else if i == 2 { 256 } else if i == 3 { 4096 } else { 65536 }
}

/// Reads one group of one to four hex digits.
fn hex_group(g: &[char]) -> (r: Option<u16>)
    ensures
        match r {
            Some(v) => hex_group_ok(g@) && v as nat == hex_digits_value(g@),
            None => !hex_group_ok(g@),
        },
{
    if g.len() < 1 || g.len() > 4 {
        return None;
    }
    let mut v: u32 = 0;
    let mut i: usize = 0;
    while i < g.len()
        invariant
            i <= g.len() <= 4,
            forall|k: int| 0 <= k < i ==> is_hex(#[trigger] g@[k]),
            v as nat == hex_digits_value(g@.take(i as int)),
            v < pow16(i as int),
        decreases g.len() - i,
    {
        let c = g[i];
        assert(g@.take(i + 1).drop_last() =~= g@.take(i as int));
        let d = match hex_char_value(c) {
            None => return None,
            Some(d) => d,
        };
        proof {
            let p = pow16(i as int);
            assert(v * 16 + d < p * 16) by (nonlinear_arith)
                requires v < p, d < 16;
            assert(pow16(i as int + 1) == p * 16);
        }
        v = v * 16 + d as u32;
        i = i + 1;
    }
    assert(g@.take(g.len() as int) =~= g@);
    Some(v as u16)
}

/// Reads a `:`-separated run of groups (the empty text is no groups).
fn parse_groups(part: &[char], allow_v4: bool) -> (r: Option<Vec<u16>>)
    ensures
        match r {
            Some(g) => groups_spec(part@, allow_v4) == Some(g@),
            None => groups_spec(part@, allow_v4) is None,
        },
{
    if part.len() == 0 {
        let v: Vec<u16> = Vec::new();
        assert(v@ =~= Seq::<u16>::empty());
        return Some(v);
    }
    let els = split_on(part, ':');
    let ghost ev = views_of(els@);
    let n = els.len();
    assert(ev.len() == n);
    let mut out: Vec<u16> = Vec::new();
    let mut i: usize = 0;
    while i + 1 < n
        invariant
            ev == views_of(els@),
            ev == split_seq(part@, ':'),
            n == els@.len(),
            n >= 1,
            i < n,
            out@.len() == i,
            forall|k: int| 0 <= k < i ==> hex_group_ok(#[trigger] ev[k]) && out@[k] as nat == hex_digits_value(ev[k]),
        decreases n - i,
    {
        assert(ev[i as int] == els@[i as int]@);
        match hex_group(els[i].as_slice()) {
            None => {
                return None;
            },
            Some(v) => {
                out.push(v);
            },
        }
        i = i + 1;
    }
    let ghost init = Seq::new((n - 1) as nat, |k: int| hex_digits_value(ev[k]) as u16);
    assert(out@ =~= init);
    let last = els[n - 1].as_slice();
    assert(ev[n - 1] == last@);
    match hex_group(last) {
        Some(v) => {
            out.push(v);
            return Some(out);
        },
        None => {},
    }
    if !allow_v4 {
        return None;
    }
    match parse_ipv4(last) {
        None => None,
        Some(q) => {
            let a = q[0] as u16 * 256 + q[1] as u16;
            let b = q[2] as u16 * 256 + q[3] as u16;
            out.push(a);
            out.push(b);
            assert(out@ =~= init + seq![a, b]);
            Some(out)
        },
    }
}

/// Finds the first `::`.
fn find_double_colon(s: &[char]) -> (r: Option<usize>)
    ensures
        match r {
            Some(k) => double_colon_from(s@, 0) == Some(k as int) && k + 1 < s@.len(),
            None => double_colon_from(s@, 0) is None,
        },
{
    let mut i: usize = 0;
    while s.len() > 0 && i < s.len() - 1
        invariant
            i <= s.len(),
            double_colon_from(s@, 0) == double_colon_from(s@, i as int),
        decreases s.len() - i,
    {
        if s[i] == ':' && s[i + 1] == ':' {
            return Some(i);
        }
        i = i + 1;
    }
    None
}

fn slice_range(s: &[char], from: usize, to: usize) -> (r: Vec<char>)
    requires
        from <= to <= s.len(),
    ensures
        r@ == s@.subrange(from as int, to as int),
{
    let mut r: Vec<char> = Vec::new();
    let mut k: usize = from;
    while k < to
        invariant
            from <= k <= to <= s.len(),
            r@ == s@.subrange(from as int, k as int),
        decreases to - k,
    {
        r.push(s[k]);
        assert(s@.subrange(from as int, k + 1) =~= s@.subrange(from as int, k as int).push(s@[k as int]));
        k = k + 1;
    }
    r
}

/// Reads an IPv6 address.
pub fn parse_ipv6(s: &[char]) -> (r: Option<Vec<u16>>)
    ensures
        match r {
            Some(g) => ipv6_spec(s@) == Some(g@),
            None => ipv6_spec(s@) is None,
        },
{
    match find_double_colon(s) {
        Some(k) => {
            assert(k + 2 <= s@.len());
            assert(s@.len() == s.len());
            let head = slice_range(s, 0, k);
            let tail = slice_range(s, k + 2, s.len());
            assert(head@ =~= s@.take(k as int));
            assert(tail@ =~= s@.skip(k + 2));
            let h = match parse_groups(head.as_slice(), false) {
                None => return None,
                Some(h) => h,
            };
            let t = match parse_groups(tail.as_slice(), true) {
                None => return None,
                Some(t) => t,
            };
            if h.len() > 7 || t.len() > 7 - h.len() {
                return None;
            }
            let mut out = h;
            let ghost hv = out@;
            let zeros = 8 - out.len() - t.len();
            let mut z: usize = 0;
            while z < zeros
                invariant
                    z <= zeros,
                    out@ == hv + Seq::new(z as nat, |i: int| 0u16),
                decreases zeros - z,
            {
                out.push(0);
                assert(hv + Seq::new((z + 1) as nat, |i: int| 0u16) =~= (hv + Seq::new(z as nat, |i: int| 0u16)).push(0u16));
                z = z + 1;
            }
            let mut j: usize = 0;
            let ghost mid = out@;
            while j < t.len()
                invariant
                    j <= t@.len(),
                    out@ == mid + t@.take(j as int),
                decreases t.len() - j,
            {
                out.push(t[j]);
                assert(t@.take(j + 1) =~= t@.take(j as int).push(t@[j as int]));
                j = j + 1;
            }
            assert(t@.take(t@.len() as int) =~= t@);
            Some(out)
        },
        None => {
            match parse_groups(s, true) {
                None => None,
                Some(g) => if g.len() == 8 { Some(g) } else { None },
            }
        },
    }
}

/// Reads an address as `str::parse::<IpAddr>` does.
pub fn parse_ip(s: &str) -> (r: Option<IpAddr>)
    ensures
        match r {
            Some(a) => ip_spec(s@) == Some(a@),
            None => ip_spec(s@) is None,
        },
{
    let cs = crate::text::chars_of(s);
    match parse_ipv4(cs.as_slice()) {
        Some(q) => Some(IpAddr::V4(q)),
        None => match parse_ipv6(cs.as_slice()) {
            Some(g) => Some(IpAddr::V6(g)),
            None => None,
        },
    }
}


/// The lower-case hexadecimal text of `n` without leading zeros (`{:x}`).
pub open spec fn hex_text(n: nat) -> Seq<char>
    decreases n,
{
    if n < 16 {
        seq![hex_digit(n)]
    } else {
        hex_text(n / 16).push(hex_digit(n % 16))
    }
}

/// A dotted quad as `Ipv4Addr` displays it.
pub open spec fn ipv4_text(q: Seq<u8>) -> Seq<char> {
    decimal(q[0] as nat) + seq!['.'] + decimal(q[1] as nat) + seq!['.'] + decimal(q[2] as nat) + seq!['.']
        + decimal(q[3] as nat)
}

/// Groups in hexadecimal, separated by `:`.
pub open spec fn hex_join(g: Seq<u16>) -> Seq<char>
    decreases g.len(),
{
    if g.len() == 0 {
        seq![]
    } else if g.len() == 1 {
        hex_text(g[0] as nat)
    } else {
        hex_join(g.drop_last()) + seq![':'] + hex_text(g.last() as nat)
    }
}

/// How many zero groups follow from position `i` on.
pub open spec fn zero_run(g: Seq<u16>, i: int) -> nat
    decreases g.len() - i,
{
    if i < 0 || i >= g.len() || g[i] != 0 {
        0
    } else {
        1 + zero_run(g, i + 1)
    }
}

/// The first position below `n` where the longest run of zero groups starts.
pub open spec fn longest_zero_start(g: Seq<u16>, n: int) -> int
    decreases n,
{
    if n <= 1 {
        0
    } else {
        let b = longest_zero_start(g, n - 1);
        if zero_run(g, n - 1) > zero_run(g, b) { n - 1 } else { b }
    }
}

/// `::ffff:a.b.c.d`, an IPv4 address mapped into IPv6.
pub open spec fn is_v4_mapped(g: Seq<u16>) -> bool {
    g[0] == 0 && g[1] == 0 && g[2] == 0 && g[3] == 0 && g[4] == 0 && g[5] == 0xffff
}

/// Eight groups as `Ipv6Addr` displays them: a mapped IPv4 address in its
/// dotted form, else the longest run of two or more zero groups (the first,
/// on a tie) shortened to `::`.
pub open spec fn ipv6_text(g: Seq<u16>) -> Seq<char> {
    if is_v4_mapped(g) {
        seq![':', ':', 'f', 'f', 'f', 'f', ':'] + ipv4_text(
            seq![(g[6] / 256) as u8, (g[6] % 256) as u8, (g[7] / 256) as u8, (g[7] % 256) as u8],
        )
    } else {
        let b = longest_zero_start(g, 8);
        let l = zero_run(g, b);
        if l > 1 {
            hex_join(g.take(b)) + seq![':', ':'] + hex_join(g.skip(b + l))
        } else {
            hex_join(g)
        }
    }
}

/// The text of an address, as `to_string` writes it.
pub open spec fn ip_text(a: IpView) -> Seq<char> {
    match a {
        IpView::V4(q) => ipv4_text(q),
        IpView::V6(g) => ipv6_text(g),
    }
}

/// Four octets or eight groups.
pub open spec fn ip_well_formed(a: IpView) -> bool {
    match a {
        IpView::V4(q) => q.len() == 4,
        IpView::V6(g) => g.len() == 8,
    }
}

proof fn lemma_parsed_well_formed(s: Seq<char>)
    ensures
        ip_spec(s) matches Some(a) ==> ip_well_formed(a),
{
    if let Some(g) = ipv6_spec(s) {
        if let Some(k) = double_colon_from(s, 0) {
            if let (Some(h), Some(t)) = (groups_spec(s.take(k), false), groups_spec(s.skip(k + 2), true)) {
                assert(g.len() == h.len() + (8 - h.len() - t.len()) + t.len());
            }
        }
    }
}

fn push_hex(s: &mut String, n: u16)
    ensures
        final(s)@ == old(s)@ + hex_text(n as nat),
{
    let mut digits: Vec<char> = Vec::new();
    let mut m: u16 = n;
    while m >= 16
        invariant
            hex_text(n as nat) == hex_text(m as nat) + digits@,
        decreases m,
    {
        let d = (m % 16) as u8;
        let c = if d < 10 { (48u8 + d) as char } else { (97u8 + (d - 10)) as char };
        assert(c == hex_digit((m % 16) as nat));
        digits.insert(0, c);
        assert(hex_text(m as nat) == hex_text((m / 16) as nat).push(c));
        assert(hex_text((m / 16) as nat) + digits@ =~= hex_text((m / 16) as nat).push(c) + digits@.drop_first());
        m = m / 16;
    }
    let d = m as u8;
    let c = if d < 10 { (48u8 + d) as char } else { (97u8 + (d - 10)) as char };
    assert(c == hex_digit(m as nat));
    digits.insert(0, c);
    assert(hex_text(n as nat) =~= digits@);
    let mut i: usize = 0;
    while i < digits.len()
        invariant
            i <= digits.len(),
            s@ == old(s)@ + digits@.take(i as int),
        decreases digits.len() - i,
    {
        push_char(s, digits[i]);
        assert(digits@.take(i + 1) =~= digits@.take(i as int).push(digits@[i as int]));
        i = i + 1;
    }
    assert(digits@.take(digits.len() as int) =~= digits@);
}

fn push_ipv4(s: &mut String, q: &[u8])
    requires
        q@.len() == 4,
    ensures
        final(s)@ == old(s)@ + ipv4_text(q@),
{
    push_decimal(s, q[0] as u64);
    push_char(s, '.');
    push_decimal(s, q[1] as u64);
    push_char(s, '.');
    push_decimal(s, q[2] as u64);
    push_char(s, '.');
    push_decimal(s, q[3] as u64);
    assert(s@ =~= old(s)@ + ipv4_text(q@));
}

/// Appends groups `from..to` of `g` joined by `:`.
fn push_hex_join(s: &mut String, g: &[u16], from: usize, to: usize)
    requires
        from <= to <= g@.len(),
    ensures
        final(s)@ == old(s)@ + hex_join(g@.subrange(from as int, to as int)),
{
    let mut i: usize = from;
    assert(g@.subrange(from as int, from as int) =~= Seq::<u16>::empty());
    while i < to
        invariant
            from <= i <= to <= g@.len(),
            s@ == old(s)@ + hex_join(g@.subrange(from as int, i as int)),
        decreases to - i,
    {
        let ghost before = s@;
        let ghost part = g@.subrange(from as int, i + 1);
        assert(part.drop_last() =~= g@.subrange(from as int, i as int));
        if i > from {
            push_char(s, ':');
        }
        push_hex(s, g[i]);
        if i == from {
            assert(part.len() == 1);
            assert(hex_join(part) == hex_text(part[0] as nat));
        }
        assert(s@ =~= old(s)@ + hex_join(part));
        i = i + 1;
    }
}

fn zero_run_at(g: &[u16], i: usize) -> (r: usize)
    requires
        i <= g@.len(),
    ensures
        r == zero_run(g@, i as int),
        i + r <= g@.len(),
{
    let mut j: usize = i;
    while j < g.len() && g[j] == 0
        invariant
            i <= j <= g@.len(),
            zero_run(g@, i as int) == (j - i) + zero_run(g@, j as int),
        decreases g.len() - j,
    {
        j = j + 1;
    }
    assert(zero_run(g@, j as int) == 0);
    j - i
}

/// The address as text, as `to_string` writes it.
pub fn ip_to_text(a: &IpAddr) -> (t: String)
    requires
        ip_well_formed(a@),
    ensures
        t@ == ip_text(a@),
{
    let mut s = String::new();
    match a {
        IpAddr::V4(q) => {
            push_ipv4(&mut s, q.as_slice());
            assert(s@ =~= ipv4_text(q@));
        },
        IpAddr::V6(g) => {
            let g = g.as_slice();
            if g[0] == 0 && g[1] == 0 && g[2] == 0 && g[3] == 0 && g[4] == 0 && g[5] == 0xffff {
                push_char(&mut s, ':');
                push_char(&mut s, ':');
                push_char(&mut s, 'f');
                push_char(&mut s, 'f');
                push_char(&mut s, 'f');
                push_char(&mut s, 'f');
                push_char(&mut s, ':');
                let q: Vec<u8> = vec![(g[6] / 256) as u8, (g[6] % 256) as u8, (g[7] / 256) as u8, (g[7] % 256) as u8];
                push_ipv4(&mut s, q.as_slice());
                assert(s@ =~= ipv6_text(g@));
            } else {
                let mut best: usize = 0;
                let mut best_len: usize = zero_run_at(g, 0);
                let mut i: usize = 1;
                while i < 8
                    invariant
                        g@.len() == 8,
                        1 <= i <= 8,
                        best == longest_zero_start(g@, i as int),
                        best < 8,
                        best_len == zero_run(g@, best as int),
                        best + best_len <= 8,
                    decreases 8 - i,
                {
                    let l = zero_run_at(g, i);
                    if l > best_len {
                        best = i;
                        best_len = l;
                    }
                    i = i + 1;
                }
                if best_len > 1 {
                    push_hex_join(&mut s, g, 0, best);
                    push_char(&mut s, ':');
                    push_char(&mut s, ':');
                    push_hex_join(&mut s, g, best + best_len, 8);
                    assert(g@.subrange(0, best as int) =~= g@.take(best as int));
                    assert(g@.subrange(best + best_len, 8) =~= g@.skip(best + best_len));
                } else {
                    push_hex_join(&mut s, g, 0, 8);
                    assert(g@.subrange(0, 8) =~= g@);
                }
                assert(s@ =~= ipv6_text(g@));
            }
        },
    }
    s
}

/// Reads an address and writes it back in its canonical text, as
/// `s.parse::<IpAddr>()` followed by `to_string` does.
pub fn canonical_ip(s: &str) -> (r: Option<String>)
    ensures
        match r {
            Some(t) => ip_spec(s@) is Some && t@ == ip_text(ip_spec(s@)->Some_0),
            None => ip_spec(s@) is None,
        },
{
    proof {
        lemma_parsed_well_formed(s@);
    }
    match parse_ip(s) {
        Some(a) => Some(ip_to_text(&a)),
        None => None,
    }
}

} // verus!
