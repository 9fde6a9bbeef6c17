//! Writing JSON text: string literals, integers, objects and arrays.
//!
//! Objects keep their members in the order in which they were added, and an
//! absent member is simply never added.
use vstd::prelude::*;
use vstd::string::StringExecFns;

verus! {

/// A lowercase hex digit.
pub open spec fn hex_digit(d: nat) -> char {
    if d < 10 {
        digit_char(d)
    } else if d == 10 {
        'a'
    } else if d == 11 {
        'b'
    } else if d == 12 {
        'c'
    } else if d == 13 {
        'd'
    } else if d == 14 {
        'e'
    } else {
        'f'
    }
}

/// How one character stands inside a JSON string: the quote, the backslash
/// and the control characters are escaped (with the short forms for
/// backspace, tab, line feed, form feed and carriage return, and `\u00XX`
/// otherwise); every other character stands as it is.
pub open spec fn escape_char(c: char) -> Seq<char> {
    let u = c as u32;
    if c == '"' {
        seq!['\\', '"']
    } else if c == '\\' {
        seq!['\\', '\\']
    } else if u == 8 {
        seq!['\\', 'b']
    } else if u == 9 {
        seq!['\\', 't']
    } else if u == 10 {
        seq!['\\', 'n']
    } else if u == 12 {
        seq!['\\', 'f']
    } else if u == 13 {
        seq!['\\', 'r']
    } else if u < 32 {
        seq!['\\', 'u', '0', '0', hex_digit((u / 16) as nat), hex_digit((u % 16) as nat)]
    } else {
        seq![c]
    }
}

/// The characters of `s`, each escaped as inside a JSON string.
pub open spec fn escaped(s: Seq<char>) -> Seq<char>
    decreases s.len(),
{
    if s.len() == 0 {
        seq![]
    } else {
        escaped(s.drop_last()) + escape_char(s.last())
    }
}

/// The JSON string literal of the text `s`: its escaped characters in quotes.
pub open spec fn json_quoted(s: Seq<char>) -> Seq<char> {
    seq!['"'] + escaped(s) + seq!['"']
}

/// Relies on serde_json's `Display` for `Value::String`: it writes a quote,
/// each character as its escape table (ser.rs `ESCAPE`, `write_char_escape`)
/// gives it, and a quote.
#[verifier::external_body]
pub(crate) fn json_string(s: &str) -> (r: String)
    ensures
        r@ == json_quoted(s@),
{
    serde_json::Value::String(s.to_owned()).to_string()
}

/// The character of a decimal digit.
pub open spec fn digit_char(d: nat) -> char {
    if d == 0 {
        '0'
    } else if d == 1 {
        '1'
    } else if d == 2 {
        '2'
    } else if d == 3 {
        '3'
    } else if d == 4 {
        '4'
    } else if d == 5 {
        '5'
    } else if d == 6 {
        '6'
    } else if d == 7 {
        '7'
    } else if d == 8 {
        '8'
    } else {
        '9'
    }
}

/// The decimal digits of `n`, most significant first, without leading zeros.
pub open spec fn digits(n: nat) -> Seq<char>
    decreases n,
{
    if n < 10 {
        seq![digit_char(n)]
    } else {
        digits(n / 10).push(digit_char(n % 10))
    }
}

/// The decimal text of an integer, with a leading `-` when it is negative.
pub open spec fn int_text(n: int) -> Seq<char> {
    if n < 0 {
        seq!['-'] + digits((-n) as nat)
    } else {
        digits(n as nat)
    }
}

/// `name: value`, as it stands inside an object.
pub open spec fn member_text(m: (Seq<char>, Seq<char>)) -> Seq<char> {
    json_quoted(m.0) + seq![':'] + m.1
}

/// The members' texts, separated by commas.
pub open spec fn members_text(ms: Seq<(Seq<char>, Seq<char>)>) -> Seq<char>
    decreases ms.len(),
{
    if ms.len() == 0 {
        seq![]
    } else if ms.len() == 1 {
        member_text(ms[0])
    } else {
        members_text(ms.drop_last()) + seq![','] + member_text(ms.last())
    }
}

/// The JSON object with the members `ms`, in this order.
pub open spec fn object_text(ms: Seq<(Seq<char>, Seq<char>)>) -> Seq<char> {
    seq!['{'] + members_text(ms) + seq!['}']
}

/// The items' texts, separated by commas.
pub open spec fn items_text(items: Seq<Seq<char>>) -> Seq<char>
    decreases items.len(),
{
    if items.len() == 0 {
        seq![]
    } else if items.len() == 1 {
        items[0]
    } else {
        items_text(items.drop_last()) + seq![','] + items.last()
    }
}

/// The JSON array with the items `items`, in this order.
pub open spec fn array_text(items: Seq<Seq<char>>) -> Seq<char> {
    seq!['['] + items_text(items) + seq![']']
}

fn digit_str(d: u64) -> (r: &'static str)
    requires
        d < 10,
    ensures
        r@ == seq![digit_char(d as nat)],
{
    proof {
        reveal_strlit("0");
        reveal_strlit("1");
        reveal_strlit("2");
        reveal_strlit("3");
        reveal_strlit("4");
        reveal_strlit("5");
        reveal_strlit("6");
        reveal_strlit("7");
        reveal_strlit("8");
        reveal_strlit("9");
    }
    if d == 0 {
        "0"
    } else if d == 1 {
        "1"
    } else if d == 2 {
        "2"
    } else if d == 3 {
        "3"
    } else if d == 4 {
        "4"
    } else if d == 5 {
        "5"
    } else if d == 6 {
        "6"
    } else if d == 7 {
        "7"
    } else if d == 8 {
        "8"
    } else {
        "9"
    }
}

fn push_digits(out: &mut String, n: u64)
    ensures
        final(out)@ == old(out)@ + digits(n as nat),
    decreases n,
{
    if n >= 10 {
        push_digits(out, n / 10);
    }
    out.append(digit_str(n % 10));
    assert(final(out)@ =~= old(out)@ + digits(n as nat));
}

/// Appends the decimal text of the unsigned `n` to `out`.
pub(crate) fn push_uint(out: &mut String, n: u64)
    ensures
        final(out)@ == old(out)@ + int_text(n as int),
{
    push_digits(out, n);
}

/// Appends the decimal text of `n` to `out`.
pub(crate) fn push_int(out: &mut String, n: i64)
    ensures
        final(out)@ == old(out)@ + int_text(n as int),
{
    if n < 0 {
        proof {
            reveal_strlit("-");
        }
        out.append("-");
        let m: u64 = (-(n as i128)) as u64;
        push_digits(out, m);
        assert(final(out)@ =~= old(out)@ + int_text(n as int));
    } else {
        push_digits(out, n as u64);
    }
}

/// The decimal text of `n`.
pub fn int_to_text(n: i64) -> (r: String)
    ensures
        r@ == int_text(n as int),
{
    let mut out = String::new();
    push_int(&mut out, n);
    assert(out@ =~= int_text(n as int));
    out
}

/// A JSON object being written member by member.
pub(crate) struct ObjectWriter {
    text: String,
    empty: bool,
    members: Ghost<Seq<(Seq<char>, Seq<char>)>>,
}

impl ObjectWriter {
    /// The members added so far, in order.
    pub(crate) closed spec fn members(&self) -> Seq<(Seq<char>, Seq<char>)> {
        self.members@
    }

    pub(crate) closed spec fn wf(&self) -> bool {
        &&& self.text@ == seq!['{'] + members_text(self.members@)
        &&& self.empty == (self.members@.len() == 0)
    }

    pub(crate) fn new() -> (r: ObjectWriter)
        ensures
            r.wf(),
            r.members() == Seq::<(Seq<char>, Seq<char>)>::empty(),
    {
        proof {
            reveal_strlit("{");
        }
        let mut text = String::new();
        text.append("{");
        let r = ObjectWriter { text, empty: true, members: Ghost(Seq::empty()) };
        assert(r.text@ =~= seq!['{'] + members_text(Seq::empty()));
        r
    }

    /// Adds the member `key: value`, where `value` is JSON text.
    pub(crate) fn member(&mut self, key: &str, value: &str)
        requires
            old(self).wf(),
        ensures
            final(self).wf(),
            final(self).members() == old(self).members().push((key@, value@)),
    {
        proof {
            reveal_strlit(",");
            reveal_strlit(":");
        }
        let ghost ms = self.members@;
        if !self.empty {
            self.text.append(",");
        }
        self.empty = false;
        let q = json_string(key);
        self.text.append(q.as_str());
        self.text.append(":");
        self.text.append(value);
        self.members = Ghost(ms.push((key@, value@)));
        let ghost ms2 = ms.push((key@, value@));
        assert(ms2.drop_last() =~= ms);
        assert(ms2.last() == (key@, value@));
        assert(self.text@ =~= seq!['{'] + members_text(ms2));
    }

    /// The finished object.
    pub(crate) fn finish(self) -> (r: String)
        requires
            self.wf(),
        ensures
            r@ == object_text(self.members()),
    {
        proof {
            reveal_strlit("}");
        }
        let mut text = self.text;
        text.append("}");
        assert(text@ =~= object_text(self.members@));
        text
    }
}

/// A JSON array being written item by item.
pub(crate) struct ArrayWriter {
    text: String,
    empty: bool,
    items: Ghost<Seq<Seq<char>>>,
}

impl ArrayWriter {
    /// The items added so far, in order.
    pub(crate) closed spec fn items(&self) -> Seq<Seq<char>> {
        self.items@
    }

    pub(crate) closed spec fn wf(&self) -> bool {
        &&& self.text@ == seq!['['] + items_text(self.items@)
        &&& self.empty == (self.items@.len() == 0)
    }

    pub(crate) fn new() -> (r: ArrayWriter)
        ensures
            r.wf(),
            r.items() == Seq::<Seq<char>>::empty(),
    {
        proof {
            reveal_strlit("[");
        }
        let mut text = String::new();
        text.append("[");
        let r = ArrayWriter { text, empty: true, items: Ghost(Seq::empty()) };
        assert(r.text@ =~= seq!['['] + items_text(Seq::empty()));
        r
    }

    /// Adds an item, given as JSON text.
    pub(crate) fn item(&mut self, value: &str)
        requires
            old(self).wf(),
        ensures
            final(self).wf(),
            final(self).items() == old(self).items().push(value@),
    {
        proof {
            reveal_strlit(",");
        }
        let ghost its = self.items@;
        if !self.empty {
            self.text.append(",");
        }
        self.empty = false;
        self.text.append(value);
        self.items = Ghost(its.push(value@));
        let ghost its2 = its.push(value@);
        assert(its2.drop_last() =~= its);
        assert(self.text@ =~= seq!['['] + items_text(its2));
    }

    /// The finished array.
    pub(crate) fn finish(self) -> (r: String)
        requires
            self.wf(),
        ensures
            r@ == array_text(self.items()),
    {
        proof {
            reveal_strlit("]");
        }
        let mut text = self.text;
        text.append("]");
        assert(text@ =~= array_text(self.items@));
        text
    }
}

} // verus!
