//! Text the planners read and write: decimal numbers, dimension lists, parsed
//! layer numbers, and the `Fault` that every refusal carries.
use vstd::prelude::*;
use vstd::string::*;

verus! {

/// A refusal. It is its message and nothing more.
#[derive(Debug)]
pub struct Fault {
    pub message: String,
}

impl View for Fault {
    type V = Seq<char>;

    open spec fn view(&self) -> Seq<char> {
        self.message@
    }
}

impl Fault {
    pub fn new(message: String) -> (fault: Fault)
        ensures
            fault@ == message@,
    {
        Fault { message }
    }

    /// A refusal whose message is fixed text.
    pub fn of(message: &str) -> (fault: Fault)
        ensures
            fault@ == message@,
    {
        Fault { message: String::from_str(message) }
    }
}

/// An outcome with its refusal taken as text.
pub open spec fn outcome<T>(r: Result<T, Fault>) -> Result<T, Seq<char>> {
    match r {
        Ok(value) => Ok(value),
        Err(fault) => Err(fault@),
    }
}

/// The first refusal in a series of checks, if there is one.
pub struct Refusal {
    pub message: Option<Seq<char>>,
}

impl Refusal {
    pub open spec fn none() -> Refusal {
        Refusal { message: None }
    }

    /// This refusal, or that of a further check.
    pub open spec fn or<T>(self, check: Result<T, Seq<char>>) -> Refusal {
        match self.message {
            Some(_) => self,
            None => match check {
                Ok(_) => self,
                Err(message) => Refusal { message: Some(message) },
            },
        }
    }

    /// This refusal, or a further one with `message` unless `holds`.
    pub open spec fn unless(self, holds: bool, message: Seq<char>) -> Refusal {
        match self.message {
            Some(_) => self,
            None => if holds {
                self
            } else {
                Refusal { message: Some(message) }
            },
        }
    }
}

/// What a function answers that refuses as `refusal` says and gives `value`
/// where nothing is refused.
pub open spec fn answer<T>(refusal: Refusal, value: T) -> Result<T, Seq<char>> {
    match refusal.message {
        Some(message) => Err(message),
        None => Ok(value),
    }
}

pub open spec fn digit_char(d: nat) -> char {
    (48 + d) as char
}

pub open spec fn is_digit(c: char) -> bool {
    48 <= c as int <= 57
}

/// The decimal digits of `n`, most significant first, without leading zeros.
pub open spec fn dec(n: nat) -> Seq<char>
    decreases n,
{
    if n < 10 {
        seq![digit_char(n)]
    } else {
        dec(n / 10).push(digit_char(n % 10))
    }
}

/// The number that a run of decimal digits stands for.
pub open spec fn digits_value(s: Seq<char>) -> nat
    decreases s.len(),
{
    if s.len() == 0 {
        0
    } else {
        digits_value(s.drop_last()) * 10 + (s.last() as int - 48) as nat
    }
}

/// What a decimal text reads as: an optional `+`, then digits only, at least
/// one of them, and a value that fits `usize`.
pub open spec fn read_usize(s: Seq<char>) -> Option<usize> {
    let digits = without_plus(s);
    if digits.len() > 0 && all_digits(digits) && digits_value(digits) <= usize::MAX {
        Some(digits_value(digits) as usize)
    } else {
        None
    }
}

pub open spec fn without_plus(s: Seq<char>) -> Seq<char> {
    if s.len() > 0 && s[0] == '+' {
        s.skip(1)
    } else {
        s
    }
}

pub open spec fn all_digits(s: Seq<char>) -> bool {
    forall|i: int| 0 <= i < s.len() ==> is_digit(#[trigger] s[i])
}

fn digit_text(d: u64) -> (text: &'static str)
    requires
        d < 10,
    ensures
        text@ == seq![digit_char(d as nat)],
{
    proof {
        reveal_strlit("0");
        reveal_strlit("1");
        reveal_strlit("2");
        reveal_strlit("3");
        reveal_strlit("4");
        reveal_strlit("5");
        reveal_strlit("6");
        reveal_strlit("7");
        reveal_strlit("8");
        reveal_strlit("9");
    }
    let text: &'static str = match d {
        0 => "0",
        1 => "1",
        2 => "2",
        3 => "3",
        4 => "4",
        5 => "5",
        6 => "6",
        7 => "7",
        8 => "8",
        _ => "9",
    };
    assert(text@ =~= seq![digit_char(d as nat)]);
    text
}

/// Writes `n` in decimal.
pub fn decimal(n: u64) -> (text: String)
    ensures
        text@ == dec(n as nat),
    decreases n,
{
    if n < 10 {
        String::from_str(digit_text(n))
    } else {
        let mut text = decimal(n / 10);
        text.append(digit_text(n % 10));
        assert(text@ =~= dec(n as nat));
        text
    }
}

/// The numbers of `s` in decimal with `, ` between them.
pub open spec fn comma_list(s: Seq<usize>) -> Seq<char>
    decreases s.len(),
{
    if s.len() == 0 {
        Seq::empty()
    } else if s.len() == 1 {
        dec(s[0] as nat)
    } else {
        comma_list(s.drop_last()) + ", "@ + dec(s.last() as nat)
    }
}

pub open spec fn bracketed(s: Seq<usize>) -> Seq<char> {
    "["@ + comma_list(s) + "]"@
}

pub open spec fn parenthesised(s: Seq<usize>) -> Seq<char> {
    "("@ + comma_list(s) + ")"@
}

fn comma_list_text(items: &[usize]) -> (text: String)
    ensures
        text@ == comma_list(items@),
{
    let mut text = String::new();
    let mut i: usize = 0;
    while i < items.len()
        invariant
            i <= items@.len(),
            text@ == comma_list(items@.take(i as int)),
        decreases items@.len() - i,
    {
        if i > 0 {
            text.append(", ");
        }
        text.append(decimal(items[i] as u64).as_str());
        assert(items@.take(i + 1).drop_last() =~= items@.take(i as int));
        assert(i == 0 ==> text@ =~= dec(items@[0] as nat));
        assert(text@ =~= comma_list(items@.take(i + 1)));
        i = i + 1;
    }
    assert(items@.take(items@.len() as int) =~= items@);
    text
}

/// Writes a list of sizes as `[a, b, c]`.
pub fn bracketed_text(items: &[usize]) -> (text: String)
    ensures
        text@ == bracketed(items@),
{
    String::from_str("[").concat(comma_list_text(items).as_str()).concat("]")
}

/// Writes a list of sizes as `(a, b, c)`.
pub fn parenthesised_text(items: &[usize]) -> (text: String)
    ensures
        text@ == parenthesised(items@),
{
    String::from_str("(").concat(comma_list_text(items).as_str()).concat(")")
}

/// Whether two texts are the same.
pub fn same_text(a: &str, b: &str) -> (same: bool)
    ensures
        same == (a@ == b@),
{
    String::from_str(a) == String::from_str(b)
}

/// The texts of strings.
pub open spec fn texts(strings: Seq<String>) -> Seq<Seq<char>> {
    strings.map_values(|s: String| s@)
}

/// Whether a text is in a list.
pub(crate) fn lists_text(names: &Vec<String>, name: &str) -> (found: bool)
    ensures
        found == texts(names@).contains(name@),
{
    let mut i: usize = 0;
    while i < names.len()
        invariant
            i <= names@.len(),
            forall|k: int| 0 <= k < i ==> (#[trigger] names@[k])@ != name@,
        decreases names@.len() - i,
    {
        if same_text(names[i].as_str(), name) {
            assert(texts(names@)[i as int] == name@);
            return true;
        }
        i = i + 1;
    }
    assert forall|k: int| 0 <= k < names@.len() implies texts(names@)[k] != name@ by {
        assert(texts(names@)[k] == names@[k]@);
    }
    false
}

/// The characters of a text, in order.
pub fn chars_of(text: &str) -> (chars: Vec<char>)
    ensures
        chars@ == text@,
{
    let mut chars: Vec<char> = Vec::new();
    for c in it: text.chars()
        invariant
            chars@ == it.seq().take(it.index()),
            it.seq() == text@,
    {
        chars.push(c);
    }
    chars
}

/// Dropping the last digits of a run of digits never makes its value larger.
proof fn lemma_value_prefix(s: Seq<char>, n: int)
    requires
        0 <= n <= s.len(),
        all_digits(s),
    ensures
        digits_value(s.take(n)) <= digits_value(s),
    decreases s.len() - n,
{
    if n < s.len() {
        lemma_value_prefix(s, n + 1);
        assert(s.take(n + 1).drop_last() =~= s.take(n));
    } else {
        assert(s.take(n) =~= s);
    }
}

/// The value of a decimal digit; `None` for any other character.
fn digit_value(c: char) -> (value: Option<usize>)
    ensures
        value == if is_digit(c) {
            Some((c as int - 48) as usize)
        } else {
            None
        },
{
    let code: u32 = c as u32;
    if 48 <= code && code <= 57 {
        Some((code - 48) as usize)
    } else {
        None
    }
}

/// Reads the decimal number held in `chars[start..end]`: an optional `+`, then
/// one or more digits. `None` for any other text, and for a number over
/// `usize::MAX`.
pub fn parse_usize(chars: &Vec<char>, start: usize, end: usize) -> (number: Option<usize>)
    requires
        start <= end <= chars@.len(),
    ensures
        number == read_usize(chars@.subrange(start as int, end as int)),
{
    let ghost body = chars@.subrange(start as int, end as int);
    let mut first: usize = start;
    if start < end && chars[start] == '+' {
        first = start + 1;
    }
    let ghost digits = chars@.subrange(first as int, end as int);
    assert(digits =~= without_plus(body));
    if first == end {
        return None;
    }
    let mut over: bool = false;
    let mut value: usize = 0;
    let mut i: usize = first;
    while i < end
        invariant
            start <= first <= i <= end <= chars@.len(),
            body == chars@.subrange(start as int, end as int),
            digits == without_plus(body),
            digits == chars@.subrange(first as int, end as int),
            forall|k: int| 0 <= k < i - first ==> is_digit(#[trigger] digits[k]),
            !over ==> value == digits_value(digits.take(i - first)),
            over ==> exists|k: int|
                0 <= k <= i - first && #[trigger] digits_value(digits.take(k)) > usize::MAX,
        decreases end - i,
    {
        assert(digits[i - first] == chars@[i as int]);
        let d: usize = match digit_value(chars[i]) {
            Some(d) => d,
            None => {
                assert(!is_digit(digits[i - first]));
                return None;
            },
        };
        assert(digits.take(i + 1 - first).drop_last() =~= digits.take(i - first));
        if !over {
            match value.checked_mul(10) {
                Some(tenfold) => {
                    match tenfold.checked_add(d) {
                        Some(sum) => {
                            value = sum;
                        },
                        None => {
                            over = true;
                            assert(digits_value(digits.take(i + 1 - first)) > usize::MAX);
                        },
                    }
                },
                None => {
                    over = true;
                    assert(digits_value(digits.take(i + 1 - first)) > usize::MAX);
                },
            }
        }
        i = i + 1;
    }
    assert(digits.take(end - first) =~= digits);
    if over {
        proof {
            let k = choose|k: int|
                0 <= k <= end - first && #[trigger] digits_value(digits.take(k)) > usize::MAX;
            lemma_value_prefix(digits, k);
        }
        None
    } else {
        Some(value)
    }
}

proof fn lemma_dec_digits(n: nat)
    ensures
        dec(n).len() > 0,
        all_digits(dec(n)),
        digits_value(dec(n)) == n,
    decreases n,
{
    if n < 10 {
        assert(dec(n).drop_last() =~= Seq::<char>::empty());
        assert(dec(n).last() == digit_char(n));
        assert(digits_value(dec(n).drop_last()) == 0);
    } else {
        lemma_dec_digits(n / 10);
        assert(dec(n).drop_last() =~= dec(n / 10));
    }
}

/// A number written in decimal reads back as itself.
pub proof fn law_decimal_reads_back(n: usize)
    ensures
        read_usize(dec(n as nat)) == Some(n),
{
    lemma_dec_digits(n as nat);
    assert(is_digit(dec(n as nat)[0]));
}

/// Two numbers with the same decimal text are the same number.
pub proof fn law_decimal_is_injective(a: nat, b: nat)
    requires
        dec(a) == dec(b),
    ensures
        a == b,
{
    lemma_dec_digits(a);
    lemma_dec_digits(b);
}

/// A number is written with the digits from `0` to `9`, the first of which is `0` for zero
/// alone; ten times the number has one more, which is `0`.
pub proof fn law_decimal_is_written_in_tens(n: nat, d: nat)
    requires
        d < 10,
    ensures
        forall|i: int| 0 <= i < dec(n).len() ==> '0' <= #[trigger] dec(n)[i] <= '9',
        dec(n)[0] == '0' <==> n == 0,
        dec(d).len() == 1 && dec(d)[0] as int == '0' as int + d,
        n > 0 ==> dec(n * 10 + d) == dec(n) + dec(d),
    decreases n,
{
    lemma_dec_digits(n);
    assert forall|i: int| 0 <= i < dec(n).len() implies '0' <= #[trigger] dec(n)[i] <= '9' by {
        assert(is_digit(dec(n)[i]));
    }
    if n >= 10 {
        law_decimal_is_written_in_tens(n / 10, d);
        lemma_dec_digits(n / 10);
        assert(dec(n)[0] == dec(n / 10)[0]);
    }
    if n > 0 {
        assert((n * 10 + d) / 10 == n && (n * 10 + d) % 10 == d);
        assert(dec(n * 10 + d) =~= dec(n) + dec(d));
    }
}

/// A list is written entry by entry, with a comma and a space between two.
pub proof fn law_lists_are_written_in_order(a: Seq<usize>, b: Seq<usize>, n: usize)
    ensures
        comma_list(seq![n]) == dec(n as nat),
        comma_list(Seq::<usize>::empty()).len() == 0,
        a.len() > 0 && b.len() > 0 ==> comma_list(a + b) == comma_list(a) + seq![',', ' ']
            + comma_list(b),
    decreases b.len(),
{
    reveal_strlit(", ");
    assert(", "@ =~= seq![',', ' ']);
    if a.len() > 0 && b.len() > 0 {
        let less = b.drop_last();
        assert((a + b).drop_last() =~= a + less);
        assert((a + b).last() == b.last());
        if b.len() == 1 {
            assert(a + less =~= a);
            assert(comma_list(a + b) =~= comma_list(a) + seq![',', ' '] + comma_list(b));
        } else {
            law_lists_are_written_in_order(a, less, n);
            assert(comma_list(a + b) =~= comma_list(a) + seq![',', ' '] + comma_list(b));
        }
    }
}

/// A list stands between brackets, or between parentheses.
pub proof fn law_lists_are_enclosed(list: Seq<usize>)
    ensures
        bracketed(list) == seq!['['] + comma_list(list) + seq![']'],
        parenthesised(list) == seq!['('] + comma_list(list) + seq![')'],
{
    reveal_strlit("[");
    reveal_strlit("]");
    reveal_strlit("(");
    reveal_strlit(")");
    assert("["@ =~= seq!['['] && "]"@ =~= seq![']']);
    assert("("@ =~= seq!['('] && ")"@ =~= seq![')']);
}

/// Of a series of checks the first that fails is the refusal, and there is none exactly
/// where all hold.
pub proof fn law_first_failure_refuses<T>(
    so_far: Refusal,
    check: Result<T, Seq<char>>,
    holds: bool,
    message: Seq<char>,
    value: T,
)
    ensures
        so_far.message is Some ==> so_far.or(check) == so_far && so_far.unless(holds, message)
            == so_far,
        so_far.or(check).message is None <==> so_far.message is None && check is Ok,
        so_far.unless(holds, message).message is None <==> so_far.message is None && holds,
        so_far.message is None && check is Err ==> so_far.or(check).message == Some(check->Err_0),
        so_far.message is None && !holds ==> so_far.unless(holds, message).message == Some(message),
        answer(so_far, value) is Ok <==> so_far.message is None,
        answer(so_far, value) matches Ok(given) ==> given == value,
        answer(so_far, value) matches Err(said) ==> so_far.message == Some(said),
{
}

/// A text reads as a number exactly where it is digits, with a `+` in front of them or
/// not, and the number is a size.
pub proof fn law_texts_are_read(text: Seq<char>, digits: Seq<char>)
    requires
        text == digits || text == seq!['+'] + digits,
        digits.len() > 0,
        forall|i: int| 0 <= i < digits.len() ==> '0' <= #[trigger] digits[i] <= '9',
    ensures
        read_usize(text) == if digits_value(digits) <= usize::MAX {
            Some(digits_value(digits) as usize)
        } else {
            None
        },
{
    assert('0' <= digits[0] <= '9');
    assert(all_digits(digits)) by {
        assert forall|i: int| 0 <= i < digits.len() implies is_digit(#[trigger] digits[i]) by {
            assert('0' <= digits[i] <= '9');
        }
    }
    if text != digits {
        assert((seq!['+'] + digits).skip(1) =~= digits);
        assert(text[0] == '+');
    }
    assert(without_plus(text) =~= digits);
}

/// A text with anything else in it does not read as a number.
pub proof fn law_other_texts_are_not_read(text: Seq<char>, i: int)
    requires
        0 <= i < text.len(),
        !('0' <= text[i] <= '9'),
        i > 0 || text[i] != '+' || text.len() == 1,
    ensures
        read_usize(text) is None,
{
    let digits = without_plus(text);
    if text[0] == '+' && i > 0 {
        assert(digits[i - 1] == text[i]);
    } else if text[0] == '+' {
        assert(digits.len() == 0);
    } else {
        assert(digits[i] == text[i]);
    }
}

/// Whether a message begins and ends with given texts.
pub open spec fn says(message: Seq<char>, opening: Seq<char>, closing: Seq<char>) -> bool {
    opening.is_prefix_of(message) && closing.is_suffix_of(message)
}

pub(crate) proof fn lemma_says(opening: Seq<char>, middle: Seq<char>, closing: Seq<char>)
    ensures
        says(opening + middle + closing, opening, closing),
{
    let message = opening + middle + closing;
    assert(message.subrange(0, opening.len() as int) =~= opening);
    assert(message.subrange(message.len() - closing.len(), message.len() as int) =~= closing);
}

pub(crate) proof fn lemma_names(opening: Seq<char>, name: Seq<char>, closing: Seq<char>)
    ensures
        says(opening + name + closing, opening + name, closing),
        says(opening + name + closing, opening, name + closing),
{
    lemma_says(opening + name, Seq::empty(), closing);
    assert((opening + name) + Seq::empty() =~= opening + name);
    lemma_says(opening, Seq::empty(), name + closing);
    assert(opening + Seq::empty() + (name + closing) =~= opening + name + closing);
}

pub(crate) proof fn lemma_compares(
    opening: Seq<char>,
    first: Seq<char>,
    between: Seq<char>,
    second: Seq<char>,
    closing: Seq<char>,
)
    ensures
        says(opening + first + between + second + closing, opening + first, second + closing),
{
    lemma_says(opening + first, between, second + closing);
    assert(opening + first + between + (second + closing) =~= opening + first + between + second
        + closing);
}

} // verus!
