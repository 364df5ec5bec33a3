//! Card text: a literal of the rules, alone or with a number or another literal behind it, or
//! text that came with a card.

use std::rc::Rc;
use vstd::prelude::*;
use vstd::string::StringExecFns;

verus! {

#[derive(Debug, PartialEq, Eq)]
pub enum Text {
    Literal(&'static str),
    /// A literal and a number, as in "Firebending 2".
    Numbered(&'static str, u32),
    /// Two literals with a colon between them.
    Titled(&'static str, &'static str),
    Printed(Rc<String>),
}

/// The digit for a number below ten.
pub open spec fn digit(n: nat) -> Seq<char> {
    if n == 0 {
        "0"@
    } else if n == 1 {
        "1"@
    } else if n == 2 {
        "2"@
    } else if n == 3 {
        "3"@
    } else if n == 4 {
        "4"@
    } else if n == 5 {
        "5"@
    } else if n == 6 {
        "6"@
    } else if n == 7 {
        "7"@
    } else if n == 8 {
        "8"@
    } else {
        "9"@
    }
}

/// A number in decimal.
pub open spec fn decimal(n: nat) -> Seq<char>
    decreases n,
{
    if n < 10 {
        digit(n)
    } else {
        decimal(n / 10) + digit(n % 10)
    }
}

fn write_digit(n: u32) -> (r: &'static str)
    requires
        n < 10,
    ensures
        r@ == digit(n as nat),
{
    if n == 0 {
        "0"
    } else if n == 1 {
        "1"
    } else if n == 2 {
        "2"
    } else if n == 3 {
        "3"
    } else if n == 4 {
        "4"
    } else if n == 5 {
        "5"
    } else if n == 6 {
        "6"
    } else if n == 7 {
        "7"
    } else if n == 8 {
        "8"
    } else {
        "9"
    }
}

/// Writes a number in decimal behind a text.
fn write_decimal(out: &mut String, n: u32)
    ensures
        final(out)@ == old(out)@ + decimal(n as nat),
    decreases n,
{
    if n < 10 {
        out.append(write_digit(n));
    } else {
        write_decimal(out, n / 10);
        out.append(write_digit(n % 10));
        assert(out@ =~= old(out)@ + decimal(n as nat));
    }
}

impl View for Text {
    type V = Seq<char>;

    open spec fn view(&self) -> Seq<char> {
        match *self {
            Text::Literal(s) => s@,
            Text::Numbered(s, n) => s@ + " "@ + decimal(n as nat),
            Text::Titled(a, b) => a@ + ": "@ + b@,
            Text::Printed(s) => s@,
        }
    }
}

impl Clone for Text {
    fn clone(&self) -> (r: Self)
        ensures
            r == *self,
    {
        match self {
            Text::Literal(s) => Text::Literal(s),
            Text::Numbered(s, n) => Text::Numbered(s, *n),
            Text::Titled(a, b) => Text::Titled(a, b),
            Text::Printed(s) => Text::Printed(s.clone()),
        }
    }
}

/// Whether `part` stands somewhere in `whole`.
pub open spec fn holds_text(whole: Seq<char>, part: Seq<char>) -> bool {
    exists|i: int|
        0 <= i <= whole.len() - part.len() && #[trigger] whole.subrange(i, i + part.len()) == part
}

impl Text {
    pub fn new(text: String) -> (r: Self)
        ensures
            r@ == text@,
    {
        Text::Printed(Rc::new(text))
    }

    /// What the text says.
    pub fn read(&self) -> (r: String)
        ensures
            r@ == self@,
    {
        match self {
            Text::Literal(s) => String::from_str(s),
            Text::Numbered(s, n) => {
                let mut out: String = String::from_str(s);
                out.append(" ");
                write_decimal(&mut out, *n);
                out
            },
            Text::Titled(a, b) => {
                let mut out: String = String::from_str(a);
                out.append(": ");
                out.append(b);
                out
            },
            Text::Printed(s) => (**s).clone(),
        }
    }

    /// Whether two texts read the same.
    pub fn reads(&self, other: &Text) -> (r: bool)
        ensures
            r == (self@ == other@),
    {
        self.read() == other.read()
    }

    /// Whether the text holds `part`.
    pub fn mentions(&self, part: &str) -> (r: bool)
        ensures
            r == holds_text(self@, part@),
    {
        let text = self.read();
        let whole = text.as_str();
        let n: usize = whole.unicode_len();
        let m: usize = part.unicode_len();
        if m > n {
            return false;
        }
        let mut i: usize = 0;
        while i <= n - m
            invariant
                n == self@.len(),
                m == part@.len(),
                m <= n,
                whole@ == self@,
                i <= n - m + 1,
                forall|k: int| 0 <= k < i ==> #[trigger] self@.subrange(k, k + m) != part@,
            decreases n - m + 1 - i,
        {
            let mut j: usize = 0;
            let mut same: bool = true;
            while j < m
                invariant
                    n == self@.len(),
                    m == part@.len(),
                    whole@ == self@,
                    i + m <= n,
                    j <= m,
                    same == (forall|k: int| 0 <= k < j ==> self@[i + k] == #[trigger] part@[k]),
                decreases m - j,
            {
                if whole.get_char(i + j) != part.get_char(j) {
                    same = false;
                }
                j = j + 1;
            }
            proof {
                let window = self@.subrange(i as int, i + m);
                if same {
                    assert(window =~= part@);
                } else {
                    let k = choose|k: int| 0 <= k < m && self@[i + k] != #[trigger] part@[k];
                    assert(window[k] == self@[i + k]);
                }
            }
            if same {
                return true;
            }
            if i == n - m {
                return false;
            }
            i = i + 1;
        }
        false
    }
}

pub fn copy_text(text: &Option<Text>) -> (r: Option<Text>)
    ensures
        r == *text,
{
    match text {
        None => None,
        Some(t) => Some(t.clone()),
    }
}

} // verus!
