use vstd::prelude::*;
use vstd::string::StringSliceAdditionalSpecFns;

verus! {

/// The text that `{:?}` writes for the string `s`: the string in double
/// quotes, with the characters that need it escaped.
pub uninterp spec fn debug_quoted_of(s: Seq<char>) -> Seq<char>;

/// Relies on std's `Debug` for `str`, which writes a string quoted and
/// escaped; what it writes depends on the characters alone.
#[verifier::external_body]
fn debug_quoted(s: &str) -> (r: String)
    ensures
        r@ == debug_quoted_of(s@),
{
    format!("{:?}", s)
}

/// The decimal digit for `d`, for `d` below ten.
pub open spec fn digit_char(d: nat) -> char {
    seq!['0', '1', '2', '3', '4', '5', '6', '7', '8', '9'][d as int]
}

/// `n` written in decimal, most significant digit first, with no leading zero.
pub open spec fn decimal(n: nat) -> Seq<char>
    decreases n,
{
    if n < 10 {
        seq![digit_char(n)]
    } else {
        decimal(n / 10).push(digit_char(n % 10))
    }
}

/// The line of a listing for the device at `index` named `name`.
pub open spec fn listing_entry(index: nat, name: Seq<char>) -> Seq<char> {
    "    "@ + decimal(index) + ": "@ + debug_quoted_of(name) + ",\n"@
}

/// The lines of a listing for `names`, the name of device `i` at position `i`.
pub open spec fn listing_entries(names: Seq<Seq<char>>) -> Seq<char>
    decreases names.len(),
{
    if names.len() == 0 {
        Seq::empty()
    } else {
        listing_entries(names.drop_last()) + listing_entry(
            (names.len() - 1) as nat,
            names.last(),
        )
    }
}

/// The body that answers a listing: the map from index to name in the
/// multi-line form of `{:#?}`, and `{}` when there are no devices.
pub open spec fn listing_body_of(names: Seq<Seq<char>>) -> Seq<char> {
    if names.len() == 0 {
        "{}"@
    } else {
        "{\n"@ + listing_entries(names) + "}"@
    }
}

/// The response that carries `body`, whose UTF-8 encoding is `byte_len`
/// bytes long. Every response has status 200.
pub open spec fn http_response_of(body: Seq<char>, byte_len: nat) -> Seq<char> {
    "HTTP/1.1 200 OK\r\nContent-Length: "@ + decimal(byte_len)
        + "\r\nContent-Type: text/plain; charset=utf-8\r\n\r\n"@ + body
}

fn digit_str(d: usize) -> (r: &'static str)
    requires
        d < 10,
    ensures
        r@ == seq![digit_char(d as nat)],
{
    proof {
        reveal_strlit("0");
        reveal_strlit("1");
        reveal_strlit("2");
        reveal_strlit("3");
        reveal_strlit("4");
        reveal_strlit("5");
        reveal_strlit("6");
        reveal_strlit("7");
        reveal_strlit("8");
        reveal_strlit("9");
    }
    let r = match d {
        0 => "0",
        1 => "1",
        2 => "2",
        3 => "3",
        4 => "4",
        5 => "5",
        6 => "6",
        7 => "7",
        8 => "8",
        _ => "9",
    };
    assert(r@ =~= seq![digit_char(d as nat)]);
    r
}

/// Appends `n` in decimal to `out`.
pub fn append_decimal(out: &mut String, n: usize)
    ensures
        final(out)@ == old(out)@ + decimal(n as nat),
    decreases n,
{
    if n >= 10 {
        append_decimal(out, n / 10);
    }
    out.append(digit_str(n % 10));
    assert(final(out)@ =~= old(out)@ + decimal(n as nat));
}

/// The body that answers a listing of devices whose names, in index order,
/// are `names`.
pub fn listing_body(names: &Vec<String>) -> (r: String)
    ensures
        r@ == listing_body_of(names@.map_values(|s: String| s@)),
{
    let ghost all = names@.map_values(|s: String| s@);
    if names.len() == 0 {
        return String::from_str("{}");
    }
    let mut out = String::from_str("{\n");
    let mut i: usize = 0;
    while i < names.len()
        invariant
            i <= names@.len(),
            all == names@.map_values(|s: String| s@),
            out@ == "{\n"@ + listing_entries(all.take(i as int)),
        decreases names@.len() - i,
    {
        let ghost before = out@;
        out.append("    ");
        append_decimal(&mut out, i);
        out.append(": ");
        let quoted = debug_quoted(names[i].as_str());
        out.append(quoted.as_str());
        out.append(",\n");
        i = i + 1;
        assert(all.take(i as int).drop_last() =~= all.take(i - 1));
        assert(all.take(i as int).last() == names@[i - 1]@);
        assert(out@ =~= before + listing_entry((i - 1) as nat, names@[i - 1]@));
    }
    out.append("}");
    assert(all.take(i as int) =~= all);
    out
}

/// The response that carries `body`.
pub fn http_response(body: &str) -> (r: String)
    requires
        body.spec_bytes().len() <= usize::MAX,
    ensures
        r@ == http_response_of(body@, body.spec_bytes().len()),
{
    let len = body.len();
    let mut out = String::from_str("HTTP/1.1 200 OK\r\nContent-Length: ");
    append_decimal(&mut out, len);
    out.append("\r\nContent-Type: text/plain; charset=utf-8\r\n\r\n");
    out.append(body);
    out
}

} // verus!
