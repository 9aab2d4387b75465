use vstd::prelude::*;
use vstd::string::StrSliceExecFns;
use vstd::string::StringExecFns;

verus! {

/// Why a stored key could not be read.
#[derive(Debug, Clone, Copy, PartialEq, Eq, Structural)]
pub enum DecodeError {
    /// The key holds no underscore, so it has no ordinal in front of a name.
    MissingSeparator,
    /// What stands before the first underscore is not a number that fits
    /// the machine's word.
    BadOrdinal,
}

/// The decimal digit for `d`, a number below ten.
pub open spec fn digit_char(d: nat) -> char {
    if d == 0 {
        '0'
    } else if d == 1 {
        '1'
    } else if d == 2 {
        '2'
    } else if d == 3 {
        '3'
    } else if d == 4 {
        '4'
    } else if d == 5 {
        '5'
    } else if d == 6 {
        '6'
    } else if d == 7 {
        '7'
    } else if d == 8 {
        '8'
    } else {
        '9'
    }
}

/// Whether `c` is one of the ten decimal digits.
pub open spec fn is_digit(c: char) -> bool {
    c == '0' || c == '1' || c == '2' || c == '3' || c == '4' || c == '5' || c == '6' || c == '7'
        || c == '8' || c == '9'
}

/// The number that the digit `c` stands for.
pub open spec fn digit_value(c: char) -> nat {
    if c == '1' {
        1
    } else if c == '2' {
        2
    } else if c == '3' {
        3
    } else if c == '4' {
        4
    } else if c == '5' {
        5
    } else if c == '6' {
        6
    } else if c == '7' {
        7
    } else if c == '8' {
        8
    } else if c == '9' {
        9
    } else {
        0
    }
}

/// `n` written in decimal, without sign or leading zeros.
pub open spec fn decimal(n: nat) -> Seq<char>
    decreases n,
{
    if n < 10 {
        seq![digit_char(n)]
    } else {
        decimal(n / 10).push(digit_char(n % 10))
    }
}

/// Whether every character of `s` is a decimal digit.
pub open spec fn all_digits(s: Seq<char>) -> bool {
    forall|i: int| 0 <= i < s.len() ==> is_digit(#[trigger] s[i])
}

/// The number that the digits `s` spell, most significant digit first.
pub open spec fn digits_value(s: Seq<char>) -> nat
    decreases s.len(),
{
    if s.len() == 0 {
        0
    } else {
        digits_value(s.drop_last()) * 10 + digit_value(s.last())
    }
}

/// The digits of an ordinal as written in front of a key: the text itself,
/// or what follows a single leading plus sign.
pub open spec fn unsigned_part(prefix: Seq<char>) -> Seq<char> {
    if prefix.len() > 0 && prefix[0] == '+' {
        prefix.skip(1)
    } else {
        prefix
    }
}

/// The ordinal that `prefix` spells: one or more decimal digits, after an
/// optional plus sign, whose value fits the machine's word.
pub open spec fn ordinal_of(prefix: Seq<char>) -> Option<nat> {
    let digits = unsigned_part(prefix);
    if digits.len() > 0 && all_digits(digits) && digits_value(digits) <= usize::MAX {
        Some(digits_value(digits))
    } else {
        None
    }
}

/// Whether the first underscore of `key` stands at place `k`.
pub open spec fn is_separator_at(key: Seq<char>, k: int) -> bool {
    &&& 0 <= k < key.len()
    &&& key[k] == '_'
    &&& forall|j: int| 0 <= j < k ==> #[trigger] key[j] != '_'
}

/// Whether `key` holds an underscore.
pub open spec fn has_separator(key: Seq<char>) -> bool {
    exists|k: int| 0 <= k < key.len() && #[trigger] key[k] == '_'
}

/// The place of the first underscore of `key`; meaningful where
/// `has_separator` holds.
pub open spec fn separator_at(key: Seq<char>) -> int {
    choose|k: int| is_separator_at(key, k)
}

/// The key under which the topic `name` is stored when it is the
/// `ordinal`-th of the store, counting from zero: the ordinal in decimal,
/// an underscore, the name.
pub open spec fn stored_key(ordinal: nat, name: Seq<char>) -> Seq<char> {
    decimal(ordinal) + seq!['_'] + name
}

/// What a stored key says: the ordinal before its first underscore and the
/// name after it, underscores in the name included.
pub open spec fn parsed_key(key: Seq<char>) -> Result<(nat, Seq<char>), DecodeError> {
    if !has_separator(key) {
        Err(DecodeError::MissingSeparator)
    } else {
        let k = separator_at(key);
        match ordinal_of(key.take(k)) {
            Some(ordinal) => Ok((ordinal, key.skip(k + 1))),
            None => Err(DecodeError::BadOrdinal),
        }
    }
}

/// The first underscore is the one that `separator_at` names.
pub proof fn lemma_separator_at(key: Seq<char>, k: int)
    requires
        is_separator_at(key, k),
    ensures
        has_separator(key),
        separator_at(key) == k,
{
    let c = separator_at(key);
    assert(is_separator_at(key, c));
    if c < k {
        assert(key[c] != '_');
    }
    if k < c {
        assert(key[k] != '_');
    }
}

/// A longer run of digits spells no smaller a number than its beginning.
pub proof fn lemma_digits_value_grows(s: Seq<char>, n: int)
    requires
        0 <= n <= s.len(),
    ensures
        digits_value(s.take(n)) <= digits_value(s),
    decreases s.len() - n,
{
    if n == s.len() {
        assert(s.take(n) =~= s);
    } else {
        lemma_digits_value_grows(s, n + 1);
        assert(s.take(n + 1).drop_last() =~= s.take(n));
    }
}

/// The decimal writing of a number is made of digits only, and spells that
/// number.
pub proof fn lemma_decimal_spells(n: nat)
    ensures
        decimal(n).len() > 0,
        all_digits(decimal(n)),
        digits_value(decimal(n)) == n,
    decreases n,
{
    if n < 10 {
        assert(decimal(n).drop_last() =~= Seq::<char>::empty());
        assert(digits_value(decimal(n).drop_last()) == 0);
    } else {
        lemma_decimal_spells(n / 10);
        assert(decimal(n).drop_last() =~= decimal(n / 10));
        assert(digit_value(digit_char(n % 10)) == n % 10);
    }
}

/// Reading a key that was written gives back the ordinal and the name,
/// whatever the name holds.
pub proof fn lemma_key_round_trip(ordinal: nat, name: Seq<char>)
    requires
        ordinal <= usize::MAX,
    ensures
        parsed_key(stored_key(ordinal, name)) == Ok::<(nat, Seq<char>), DecodeError>((ordinal, name)),
{
    let digits = decimal(ordinal);
    let key = stored_key(ordinal, name);
    let k = digits.len() as int;
    lemma_decimal_spells(ordinal);
    assert forall|j: int| 0 <= j < k implies #[trigger] key[j] != '_' by {
        assert(key[j] == digits[j]);
        assert(is_digit(digits[j]));
    }
    assert(key[k] == '_');
    lemma_separator_at(key, k);
    assert(key.take(k) =~= digits);
    assert(key.skip(k + 1) =~= name);
    assert(is_digit(digits[0]));
    assert(unsigned_part(digits) == digits);
}

/// The one-character text of the digit for `d`.
fn digit_text(d: usize) -> (text: &'static str)
    requires
        d < 10,
    ensures
        text@ == seq![digit_char(d as nat)],
{
    proof {
        reveal_strlit("0");
        reveal_strlit("1");
        reveal_strlit("2");
        reveal_strlit("3");
        reveal_strlit("4");
        reveal_strlit("5");
        reveal_strlit("6");
        reveal_strlit("7");
        reveal_strlit("8");
        reveal_strlit("9");
    }
    let text = if d == 0 {
        "0"
    } else if d == 1 {
        "1"
    } else if d == 2 {
        "2"
    } else if d == 3 {
        "3"
    } else if d == 4 {
        "4"
    } else if d == 5 {
        "5"
    } else if d == 6 {
        "6"
    } else if d == 7 {
        "7"
    } else if d == 8 {
        "8"
    } else {
        "9"
    };
    assert(text@ =~= seq![digit_char(d as nat)]);
    text
}

/// Appends `n` in decimal to `text`.
pub fn push_decimal(text: &mut String, n: usize)
    ensures
        final(text)@ == old(text)@ + decimal(n as nat),
    decreases n,
{
    if n >= 10 {
        push_decimal(text, n / 10);
    }
    text.append(digit_text(n % 10));
    assert(text@ =~= old(text)@ + decimal(n as nat));
}

/// The key under which the topic `name` is stored as the `ordinal`-th topic.
pub fn encode_key(ordinal: usize, name: &str) -> (key: String)
    ensures
        key@ == stored_key(ordinal as nat, name@),
{
    let mut key = String::new();
    push_decimal(&mut key, ordinal);
    proof {
        reveal_strlit("_");
    }
    key.append("_");
    key.append(name);
    assert(key@ =~= stored_key(ordinal as nat, name@));
    key
}

/// The characters of `text`, in order.
fn chars_of(text: &str) -> (chars: Vec<char>)
    ensures
        chars@ == text@,
{
    let mut chars: Vec<char> = Vec::new();
    for c in it: text.chars()
        invariant
            it.seq() == text@,
            chars@ == it.seq().take(it.index() as int),
    {
        chars.push(c);
    }
    chars
}

/// The number of the digit `c`, or `None` where `c` is no decimal digit.
fn digit_of(c: char) -> (digit: Option<usize>)
    ensures
        digit is Some <==> is_digit(c),
        digit is Some ==> digit->0 == digit_value(c),
{
    if c == '0' {
        Some(0)
    } else if c == '1' {
        Some(1)
    } else if c == '2' {
        Some(2)
    } else if c == '3' {
        Some(3)
    } else if c == '4' {
        Some(4)
    } else if c == '5' {
        Some(5)
    } else if c == '6' {
        Some(6)
    } else if c == '7' {
        Some(7)
    } else if c == '8' {
        Some(8)
    } else if c == '9' {
        Some(9)
    } else {
        None
    }
}

/// Reads the ordinal that the first `end` characters of `chars` spell.
fn read_ordinal(chars: &Vec<char>, end: usize) -> (ordinal: Option<usize>)
    requires
        end <= chars.len(),
    ensures
        match ordinal {
            Some(n) => ordinal_of(chars@.take(end as int)) == Some(n as nat),
            None => ordinal_of(chars@.take(end as int)) is None,
        },
{
    let ghost prefix = chars@.take(end as int);
    let start: usize = if end > 0 && chars[0] == '+' {
        1
    } else {
        0
    };
    let ghost digits = unsigned_part(prefix);
    assert(digits =~= chars@.subrange(start as int, end as int));
    if start == end {
        return None;
    }
    let mut value: usize = 0;
    let mut i: usize = start;
    while i < end
        invariant
            start <= i <= end <= chars.len(),
            digits == chars@.subrange(start as int, end as int),
            digits == unsigned_part(chars@.take(end as int)),
            all_digits(digits.take(i - start)),
            value == digits_value(digits.take(i - start)),
        decreases end - i,
    {
        let ghost seen = digits.take(i - start);
        let ghost next = digits.take(i - start + 1);
        assert(next.drop_last() =~= seen);
        assert(next.last() == chars@[i as int]);
        match digit_of(chars[i]) {
            Some(d) => {
                if value > (usize::MAX - d) / 10 {
                    proof {
                        assert(digits_value(next) == value * 10 + d);
                        assert(value * 10 + d > usize::MAX) by (nonlinear_arith)
                            requires
                                value > (usize::MAX - d) / 10,
                                0 <= d < 10,
                        ;
                        lemma_digits_value_grows(digits, i - start + 1);
                    }
                    return None;
                }
                assert(value * 10 + d <= usize::MAX) by (nonlinear_arith)
                    requires
                        value <= (usize::MAX - d) / 10,
                        0 <= d < 10,
                ;
                value = value * 10 + d;
                assert forall|j: int| 0 <= j < next.len() implies is_digit(#[trigger] next[j]) by {
                    if j < seen.len() {
                        assert(next[j] == seen[j]);
                    }
                }
            },
            None => {
                assert(!is_digit(digits[i - start]));
                return None;
            },
        }
        i += 1;
    }
    assert(digits.take(end - start) =~= digits);
    Some(value)
}

/// Reads a stored key: the ordinal before the first underscore, and the
/// topic's name after it. Fails where the key has no underscore, or where
/// what stands before the first one is no ordinal.
pub fn decode_key(key: &str) -> (parsed: Result<(usize, String), DecodeError>)
    ensures
        match parsed {
            Ok((ordinal, name)) => parsed_key(key@) == Ok::<(nat, Seq<char>), DecodeError>(
                (ordinal as nat, name@),
            ),
            Err(error) => parsed_key(key@) == Err::<(nat, Seq<char>), DecodeError>(error),
        },
{
    let chars = chars_of(key);
    let mut k: usize = 0;
    while k < chars.len() && chars[k] != '_'
        invariant
            k <= chars.len(),
            forall|j: int| 0 <= j < k ==> #[trigger] chars@[j] != '_',
        decreases chars.len() - k,
    {
        k += 1;
    }
    if k == chars.len() {
        return Err(DecodeError::MissingSeparator);
    }
    proof {
        lemma_separator_at(key@, k as int);
    }
    match read_ordinal(&chars, k) {
        Some(ordinal) => {
            let name = key.substring_char(k + 1, chars.len());
            Ok((ordinal, name.to_owned()))
        },
        None => Err(DecodeError::BadOrdinal),
    }
}

} // verus!
