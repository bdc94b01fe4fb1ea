use vstd::prelude::*;

verus! {

/// What one request line asks of a session.
#[derive(Debug, Clone, Copy, PartialEq, Eq, Structural)]
pub enum Request {
    /// List the devices of the current snapshot.
    ListDevices,
    /// Connect to the device at this index of the current snapshot.
    ConnectDevice(usize),
    /// Re-scan the service's devices.
    RefreshDevices,
    /// Not a request this session serves: the connection ends.
    Close,
}

/// `p` occurs in `s` starting at position `i`.
pub open spec fn occurs_at(s: Seq<char>, p: Seq<char>, i: int) -> bool {
    0 <= i && i + p.len() <= s.len() && s.subrange(i, i + p.len()) == p
}

/// The first position at or after `i` where `p` occurs in `s`.
pub open spec fn find_from(s: Seq<char>, p: Seq<char>, i: int) -> Option<int>
    decreases s.len() + 1 - i,
{
    if i < 0 || i + p.len() > s.len() {
        None
    } else if occurs_at(s, p, i) {
        Some(i)
    } else {
        find_from(s, p, i + 1)
    }
}

/// `p` occurs somewhere in `s`.
pub open spec fn contains(s: Seq<char>, p: Seq<char>) -> bool {
    find_from(s, p, 0) is Some
}

/// What follows the first occurrence of `p` in `s`, if there is one.
pub open spec fn after_first(s: Seq<char>, p: Seq<char>) -> Option<Seq<char>> {
    match find_from(s, p, 0) {
        Some(k) => Some(s.subrange(k + p.len(), s.len() as int)),
        None => None,
    }
}

/// What precedes the first occurrence of `p` in `s`, if there is one.
pub open spec fn before_first(s: Seq<char>, p: Seq<char>) -> Option<Seq<char>> {
    match find_from(s, p, 0) {
        Some(k) => Some(s.subrange(0, k)),
        None => None,
    }
}

pub open spec fn is_digit(c: char) -> bool {
    '0' <= c && c <= '9'
}

pub open spec fn all_digits(s: Seq<char>) -> bool {
    forall|i: int| 0 <= i < s.len() ==> is_digit(#[trigger] s[i])
}

/// The number that the decimal digits `s` write, most significant first.
pub open spec fn digits_value(s: Seq<char>) -> nat
    decreases s.len(),
{
    if s.len() == 0 {
        0
    } else {
        digits_value(s.drop_last()) * 10 + ((s.last() as u32) - 48) as nat
    }
}

/// `s` without one leading `+`.
pub open spec fn unsigned_digits(s: Seq<char>) -> Seq<char> {
    if s.len() > 0 && s[0] == '+' {
        s.drop_first()
    } else {
        s
    }
}

/// The `usize` that `s` writes in decimal: one or more digits after an
/// optional `+`, with a value that fits.
pub open spec fn parse_usize_spec(s: Seq<char>) -> Option<usize> {
    let d = unsigned_digits(s);
    if d.len() > 0 && all_digits(d) && digits_value(d) <= usize::MAX {
        Some(digits_value(d) as usize)
    } else {
        None
    }
}

/// The index that a connect line names: the text between the first
/// `/connect/` and the first ` HTTP/1.1` after it, read as a `usize`.
pub open spec fn connect_index(line: Seq<char>) -> Option<usize> {
    match after_first(line, "/connect/"@) {
        Some(rest) => match before_first(rest, " HTTP/1.1"@) {
            Some(num) => parse_usize_spec(num),
            None => None,
        },
        None => None,
    }
}

/// The request that the first line of a request names. Routes are tried in
/// the order `/devices`, `/connect`, `/refresh`, each by substring.
pub open spec fn request_of(line: Seq<char>) -> Request {
    if contains(line, "/devices"@) {
        Request::ListDevices
    } else if contains(line, "/connect"@) {
        match connect_index(line) {
            Some(n) => Request::ConnectDevice(n),
            None => Request::Close,
        }
    } else if contains(line, "/refresh"@) {
        Request::RefreshDevices
    } else {
        Request::Close
    }
}

proof fn lemma_digits_prefix(s: Seq<char>, k: int)
    requires
        all_digits(s),
        0 <= k <= s.len(),
    ensures
        digits_value(s.take(k)) <= digits_value(s),
    decreases s.len(),
{
    if k == s.len() {
        assert(s.take(k) =~= s);
    } else {
        let t = s.drop_last();
        assert(is_digit(s[s.len() - 1]));
        assert(all_digits(t)) by {
            assert forall|i: int| 0 <= i < t.len() implies is_digit(#[trigger] t[i]) by {
                assert(t[i] == s[i]);
            }
        }
        lemma_digits_prefix(t, k);
        assert(t.take(k) =~= s.take(k));
    }
}

proof fn lemma_find_from_occurs(s: Seq<char>, p: Seq<char>, i: int)
    ensures
        find_from(s, p, i) matches Some(k) ==> i <= k && occurs_at(s, p, k),
    decreases s.len() + 1 - i,
{
    if !(i < 0 || i + p.len() > s.len()) && !occurs_at(s, p, i) {
        lemma_find_from_occurs(s, p, i + 1);
    }
}

/// Whether `p` occurs in `s` at position `i`.
fn occurs_at_exec(s: &str, p: &str, i: usize, n: usize, m: usize) -> (r: bool)
    requires
        n == s@.len(),
        m == p@.len(),
        i + m <= n,
    ensures
        r == occurs_at(s@, p@, i as int),
{
    let mut j: usize = 0;
    while j < m
        invariant
            n == s@.len(),
            m == p@.len(),
            i + m <= n,
            j <= m,
            s@.subrange(i as int, i + j) =~= p@.subrange(0, j as int),
        decreases m - j,
    {
        if s.get_char(i + j) != p.get_char(j) {
            assert(s@.subrange(i as int, i + m)[j as int] != p@[j as int]);
            return false;
        }
        j = j + 1;
        assert(s@.subrange(i as int, i + j) =~= p@.subrange(0, j as int));
    }
    assert(p@.subrange(0, m as int) =~= p@);
    true
}

/// The first position at or after `start` where `p` occurs in `s`.
pub fn find(s: &str, p: &str, start: usize) -> (r: Option<usize>)
    ensures
        r is None <==> find_from(s@, p@, start as int) is None,
        r matches Some(k) ==> find_from(s@, p@, start as int) == Some(k as int),
        r matches Some(k) ==> start <= k && occurs_at(s@, p@, k as int),
{
    proof {
        lemma_find_from_occurs(s@, p@, start as int);
    }
    let n = s.unicode_len();
    let m = p.unicode_len();
    if m > n || start > n - m {
        return None;
    }
    let mut i: usize = start;
    loop
        invariant
            n == s@.len(),
            m == p@.len(),
            start <= i <= n - m,
            find_from(s@, p@, start as int) == find_from(s@, p@, i as int),
        decreases n - m - i,
    {
        if occurs_at_exec(s, p, i, n, m) {
            return Some(i);
        }
        if i == n - m {
            assert(find_from(s@, p@, i + 1) is None);
            return None;
        }
        i = i + 1;
    }
}

/// Reads `s` as a `usize` written in decimal, with an optional leading `+`.
pub fn parse_usize(s: &str) -> (r: Option<usize>)
    ensures
        r == parse_usize_spec(s@),
{
    let n = s.unicode_len();
    let start: usize = if n > 0 && s.get_char(0) == '+' {
        1
    } else {
        0
    };
    let ghost d = unsigned_digits(s@);
    assert(d =~= s@.subrange(start as int, n as int));
    if start == n {
        return None;
    }
    let mut i: usize = start;
    let mut v: usize = 0;
    while i < n
        invariant
            n == s@.len(),
            start <= i <= n,
            d == unsigned_digits(s@),
            d == s@.subrange(start as int, n as int),
            all_digits(d.take(i - start)),
            v == digits_value(d.take(i - start)),
        decreases n - i,
    {
        let c = s.get_char(i);
        if !('0' <= c && c <= '9') {
            assert(!is_digit(d[i - start]));
            assert(!all_digits(d));
            return None;
        }
        let dv: usize = (c as u32 - 48) as usize;
        let ghost k = i - start + 1;
        assert(d.take(k).drop_last() =~= d.take(k - 1));
        assert(d.take(k).last() == c);
        assert(digits_value(d.take(k)) == v * 10 + dv);
        if v > (usize::MAX - dv) / 10 {
            assert(v * 10 + dv > usize::MAX) by (nonlinear_arith)
                requires
                    v > (usize::MAX - dv) / 10,
                    dv <= 9,
            ;
            proof {
                if all_digits(d) {
                    lemma_digits_prefix(d, k);
                }
            }
            return None;
        }
        assert(v * 10 + dv <= usize::MAX) by (nonlinear_arith)
            requires
                v <= (usize::MAX - dv) / 10,
                dv <= 9,
        ;
        v = v * 10 + dv;
        i = i + 1;
        assert(all_digits(d.take(i - start))) by {
            assert forall|j: int| 0 <= j < k implies is_digit(#[trigger] d.take(k)[j]) by {
                if j < k - 1 {
                    assert(d.take(k)[j] == d.take(k - 1)[j]);
                }
            }
        }
    }
    assert(d.take(n - start) =~= d);
    Some(v)
}

/// The request that the first line of a request names; see `request_of`.
pub fn parse_request(line: &str) -> (r: Request)
    ensures
        r == request_of(line@),
{
    if find(line, "/devices", 0).is_some() {
        Request::ListDevices
    } else if find(line, "/connect", 0).is_some() {
        let marker = "/connect/";
        match find(line, marker, 0) {
            None => Request::Close,
            Some(k) => {
                let n = line.unicode_len();
                let rest = line.substring_char(k + marker.unicode_len(), n);
                match find(rest, " HTTP/1.1", 0) {
                    None => Request::Close,
                    Some(j) => match parse_usize(rest.substring_char(0, j)) {
                        Some(index) => Request::ConnectDevice(index),
                        None => Request::Close,
                    },
                }
            },
        }
    } else if find(line, "/refresh", 0).is_some() {
        Request::RefreshDevices
    } else {
        Request::Close
    }
}

} // verus!
