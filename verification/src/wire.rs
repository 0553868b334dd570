use vstd::prelude::*;
use vstd::string::StringExecFns;

verus! {

/// The character for one decimal digit.
pub open spec fn digit_char(d: nat) -> char
    recommends
        d < 10,
{
    if d == 0 {
        '0'
    } else if d == 1 {
        '1'
    } else if d == 2 {
        '2'
    } else if d == 3 {
        '3'
    } else if d == 4 {
        '4'
    } else if d == 5 {
        '5'
    } else if d == 6 {
        '6'
    } else if d == 7 {
        '7'
    } else if d == 8 {
        '8'
    } else {
        '9'
    }
}

/// The decimal digits of `n`, most significant first, no leading zeros
/// (zero itself is "0").
pub open spec fn dec_digits(n: nat) -> Seq<char>
    decreases n,
{
    if n < 10 {
        seq![digit_char(n)]
    } else {
        dec_digits(n / 10) + seq![digit_char(n % 10)]
    }
}

/// The canonical message a signer commits to for one observation: the
/// pair symbol, the round id and the price, each in its plain decimal
/// text form, joined by single ':' separators. Signers reproduce this
/// byte-for-byte off-chain, so the encoding is fixed here once.
pub open spec fn message_chars(pair: Seq<char>, round_id: u64, price: u128) -> Seq<char> {
    pair + seq![':'] + dec_digits(round_id as nat) + seq![':'] + dec_digits(price as nat)
}

/// The provider-qualified entry name the aggregation engine reads: the
/// pair symbol and the provider name joined by ':'.
pub open spec fn qualified_chars(pair: Seq<char>, provider: Seq<char>) -> Seq<char> {
    pair + seq![':'] + provider
}

/// One decimal digit as text.
fn digit_str(d: u128) -> (r: &'static str)
    requires
        d < 10,
    ensures
        r@ == seq![digit_char(d as nat)],
{
    proof {
        reveal_strlit("0");
        reveal_strlit("1");
        reveal_strlit("2");
        reveal_strlit("3");
        reveal_strlit("4");
        reveal_strlit("5");
        reveal_strlit("6");
        reveal_strlit("7");
        reveal_strlit("8");
        reveal_strlit("9");
    }
    if d == 0 {
        "0"
    } else if d == 1 {
        "1"
    } else if d == 2 {
        "2"
    } else if d == 3 {
        "3"
    } else if d == 4 {
        "4"
    } else if d == 5 {
        "5"
    } else if d == 6 {
        "6"
    } else if d == 7 {
        "7"
    } else if d == 8 {
        "8"
    } else {
        "9"
    }
}

/// Writes a magnitude in decimal.
pub fn format_u128(n: u128) -> (r: String)
    ensures
        r@ == dec_digits(n as nat),
    decreases n,
{
    if n < 10 {
        digit_str(n).to_owned()
    } else {
        let mut s = format_u128(n / 10);
        s.append(digit_str(n % 10));
        s
    }
}

/// Builds the canonical signed message `{pair}:{round_id}:{price}`.
pub fn canonical_message(pair: &String, round_id: u64, price: u128) -> (r: String)
    ensures
        r@ == message_chars(pair@, round_id, price),
{
    proof {
        reveal_strlit(":");
    }
    let mut s = pair.clone();
    s.append(":");
    let round_str = format_u128(round_id as u128);
    s.append(round_str.as_str());
    s.append(":");
    let price_str = format_u128(price);
    s.append(price_str.as_str());
    assert(":"@ =~= seq![':']);
    assert(s@ =~= message_chars(pair@, round_id, price));
    s
}

/// The name a price consumer caches a provider-qualified reading under:
/// the pair symbol and the provider name joined by '-'.
pub open spec fn dashed_chars(pair: Seq<char>, provider: Seq<char>) -> Seq<char> {
    pair + seq!['-'] + provider
}

/// Builds the consumer-side entry name `{pair}-{provider}`.
pub fn dashed_name(pair: &String, provider: &String) -> (r: String)
    ensures
        r@ == dashed_chars(pair@, provider@),
{
    proof {
        reveal_strlit("-");
    }
    let mut s = pair.clone();
    s.append("-");
    s.append(provider.as_str());
    assert("-"@ =~= seq!['-']);
    assert(s@ =~= dashed_chars(pair@, provider@));
    s
}

/// Builds the provider-qualified entry name `{pair}:{provider}`.
pub fn qualified_name(pair: &String, provider: &String) -> (r: String)
    ensures
        r@ == qualified_chars(pair@, provider@),
{
    proof {
        reveal_strlit(":");
    }
    let mut s = pair.clone();
    s.append(":");
    s.append(provider.as_str());
    assert(":"@ =~= seq![':']);
    assert(s@ =~= qualified_chars(pair@, provider@));
    s
}

} // verus!
