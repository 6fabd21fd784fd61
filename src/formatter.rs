//! Assertion statements in the store's N-Quad-like language.
use vstd::prelude::*;

verus! {

/// The character of a decimal digit.
pub open spec fn digit_char(d: nat) -> char {
    seq!['0', '1', '2', '3', '4', '5', '6', '7', '8', '9'][d as int]
}

/// The decimal notation of a natural number, without sign or leading zeros.
pub open spec fn decimal(n: nat) -> Seq<char>
    decreases n,
{
    if n < 10 {
        seq![digit_char(n)]
    } else {
        decimal(n / 10).push(digit_char(n % 10))
    }
}

/// `"value"`: a literal object.
pub open spec fn quoted(value: Seq<char>) -> Seq<char> {
    "\""@ + value + "\""@
}

/// One statement: subject, predicate and object, terminated by ` .` and a newline.
pub open spec fn statement(subject: Seq<char>, predicate: Seq<char>, object: Seq<char>) -> Seq<char> {
    subject + " "@ + predicate + " "@ + object + " .\n"@
}

/// One statement per value, in order, all on the same subject and predicate.
pub open spec fn statements_for(subject: Seq<char>, predicate: Seq<char>, values: Seq<Seq<char>>) -> Seq<char>
    decreases values.len(),
{
    if values.len() == 0 {
        Seq::empty()
    } else {
        statements_for(subject, predicate, values.drop_last()) + statement(
            subject,
            predicate,
            quoted(values.last()),
        )
    }
}

fn digit_str(d: u64) -> (r: &'static str)
    requires
        d < 10,
    ensures
        r@ == seq![digit_char(d as nat)],
{
    proof {
        reveal_strlit("0");
        reveal_strlit("1");
        reveal_strlit("2");
        reveal_strlit("3");
        reveal_strlit("4");
        reveal_strlit("5");
        reveal_strlit("6");
        reveal_strlit("7");
        reveal_strlit("8");
        reveal_strlit("9");
    }
    match d {
        0 => "0",
        1 => "1",
        2 => "2",
        3 => "3",
        4 => "4",
        5 => "5",
        6 => "6",
        7 => "7",
        8 => "8",
        _ => "9",
    }
}

/// Whether two texts hold the same characters.
pub fn text_eq(a: &str, b: &str) -> (r: bool)
    ensures
        r == (a@ == b@),
{
    let x = a.to_owned();
    let y = b.to_owned();
    x == y
}

/// Whether a text is empty.
pub fn is_empty_text(s: &str) -> (r: bool)
    ensures
        r == (s@.len() == 0),
{
    s.unicode_len() == 0
}

/// Decimal notation of `n`.
pub fn decimal_string(n: u64) -> (r: String)
    ensures
        r@ == decimal(n as nat),
    decreases n,
{
    if n < 10 {
        String::from_str(digit_str(n))
    } else {
        let mut s = decimal_string(n / 10);
        s.append(digit_str(n % 10));
        s
    }
}

/// Appends `subject predicate object .` and a newline to `out`.
pub fn push_statement(out: &mut String, subject: &str, predicate: &str, object: &str)
    ensures
        final(out)@ == old(out)@ + statement(subject@, predicate@, object@),
{
    out.append(subject);
    out.append(" ");
    out.append(predicate);
    out.append(" ");
    out.append(object);
    out.append(" .\n");
}

/// Appends a statement whose object is the literal `value`.
pub fn push_literal_statement(out: &mut String, subject: &str, predicate: &str, value: &str)
    ensures
        final(out)@ == old(out)@ + statement(subject@, predicate@, quoted(value@)),
{
    let mut object = String::from_str("\"");
    object.append(value);
    object.append("\"");
    push_statement(out, subject, predicate, object.as_str());
}

/// A value that renders as zero or more statements on a given subject and predicate.
pub trait RDFable {
    /// The statements rendered for this value.
    spec fn nquads(&self, subject: Seq<char>, predicate: Seq<char>) -> Seq<char>;

    fn nqd(&self, subject: &str, predicate: &str) -> (r: String)
        ensures
            r@ == self.nquads(subject@, predicate@),
    ;
}

impl RDFable for Option<String> {
    /// An absent value renders nothing; a present one renders one statement.
    open spec fn nquads(&self, subject: Seq<char>, predicate: Seq<char>) -> Seq<char> {
        match self {
            Some(v) => statement(subject, predicate, quoted(v@)),
            None => Seq::empty(),
        }
    }

    fn nqd(&self, subject: &str, predicate: &str) -> (r: String) {
        let mut out = String::new();
        match self {
            Some(v) => push_literal_statement(&mut out, subject, predicate, v.as_str()),
            None => {},
        }
        out
    }
}

impl RDFable for Option<u16> {
    open spec fn nquads(&self, subject: Seq<char>, predicate: Seq<char>) -> Seq<char> {
        match self {
            Some(v) => statement(subject, predicate, quoted(decimal(*v as nat))),
            None => Seq::empty(),
        }
    }

    fn nqd(&self, subject: &str, predicate: &str) -> (r: String) {
        let mut out = String::new();
        match self {
            Some(v) => {
                let text = decimal_string(*v as u64);
                push_literal_statement(&mut out, subject, predicate, text.as_str());
            },
            None => {},
        }
        out
    }
}

impl RDFable for Option<u32> {
    open spec fn nquads(&self, subject: Seq<char>, predicate: Seq<char>) -> Seq<char> {
        match self {
            Some(v) => statement(subject, predicate, quoted(decimal(*v as nat))),
            None => Seq::empty(),
        }
    }

    fn nqd(&self, subject: &str, predicate: &str) -> (r: String) {
        let mut out = String::new();
        match self {
            Some(v) => {
                let text = decimal_string(*v as u64);
                push_literal_statement(&mut out, subject, predicate, text.as_str());
            },
            None => {},
        }
        out
    }
}

impl RDFable for Vec<String> {
    open spec fn nquads(&self, subject: Seq<char>, predicate: Seq<char>) -> Seq<char> {
        statements_for(subject, predicate, self@.map_values(|v: String| v@))
    }

    fn nqd(&self, subject: &str, predicate: &str) -> (r: String) {
        let mut out = String::new();
        let mut i: usize = 0;
        while i < self.len()
            invariant
                i <= self.len(),
                out@ == statements_for(
                    subject@,
                    predicate@,
                    self@.map_values(|v: String| v@).take(i as int),
                ),
            decreases self.len() - i,
        {
            let ghost values = self@.map_values(|v: String| v@);
            assert(values.take(i + 1).drop_last() =~= values.take(i as int));
            push_literal_statement(&mut out, subject, predicate, self[i].as_str());
            i = i + 1;
        }
        assert(self@.map_values(|v: String| v@).take(self.len() as int) =~= self@.map_values(
            |v: String| v@,
        ));
        out
    }
}

} // verus!
