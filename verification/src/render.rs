//! The text of an error: the path as dotted keys and indices, and one
//! sentence for each kind of fault.

use vstd::prelude::*;
use vstd::string::StringExecFns;
use crate::error::{ConfigError, ErrorKind, Failure, Segment, Step, steps};
use crate::text::{all_digits, digit_value, digits_value};

verus! {

/// The character that writes a digit below ten.
pub open spec fn digit_char(digit: nat) -> char {
    if digit == 0 {
        '0'
    } else if digit == 1 {
        '1'
    } else if digit == 2 {
        '2'
    } else if digit == 3 {
        '3'
    } else if digit == 4 {
        '4'
    } else if digit == 5 {
        '5'
    } else if digit == 6 {
        '6'
    } else if digit == 7 {
        '7'
    } else if digit == 8 {
        '8'
    } else {
        '9'
    }
}

/// A number in decimal digits, without leading zeros.
pub open spec fn decimal(number: nat) -> Seq<char>
    decreases number,
{
    if number < 10 {
        seq![digit_char(number)]
    } else {
        decimal(number / 10).push(digit_char(number % 10))
    }
}

/// One step of a path as text: a key as it is, an index in decimal digits.
pub open spec fn step_text(step: Step) -> Seq<char> {
    match step {
        Step::Key(name) => name,
        Step::Index(nth) => decimal(nth as nat),
    }
}

/// A path as text: its steps from the root on, with a dot between two
/// steps.
pub open spec fn dotted(path: Seq<Step>) -> Seq<char>
    decreases path.len(),
{
    if path.len() == 0 {
        Seq::empty()
    } else if path.len() == 1 {
        step_text(path[0])
    } else {
        dotted(path.drop_last()) + seq!['.'] + step_text(path.last())
    }
}

/// What a message says before it names its subject.
pub open spec fn opening(kind: ErrorKind) -> Seq<char> {
    match kind {
        ErrorKind::UnrecognizedKey => "unrecognized key: "@,
        ErrorKind::Missing => "missing "@,
        ErrorKind::UnknownScriptDevice => "[[script]] refers to a non-existing device filter: "@,
        ErrorKind::NameCollision => "same name used as a device filter and a virtual device: "@,
        ErrorKind::UnknownRedirectTarget =>
            "[[virtual-device]]'s 'redirect-force-feedback-to' refers to a non-existing device filter: "@,
        _ => Seq::empty(),
    }
}

/// What a message says after it named its subject.
pub open spec fn closing(kind: ErrorKind) -> Seq<char> {
    match kind {
        ErrorKind::NotAString => " is not a string"@,
        ErrorKind::NotAnInteger => " is not an integer"@,
        ErrorKind::NotABoolean => " is not a boolean"@,
        ErrorKind::NotAnArray => " is not an array"@,
        ErrorKind::NotATable => " is not a table"@,
        ErrorKind::OutOfRange => " is out of range"@,
        ErrorKind::InvalidValue => " has an invalid value"@,
        ErrorKind::InvalidAxisName => " is not the name of an absolute axis"@,
        _ => Seq::empty(),
    }
}

/// The fault is about a name rather than about a place in the document.
pub open spec fn names_detail(kind: ErrorKind) -> bool {
    kind == ErrorKind::UnknownScriptDevice || kind == ErrorKind::NameCollision || kind
        == ErrorKind::UnknownRedirectTarget
}

/// The message of a fault. A fault of syntax gives the reader's own
/// message. Any other gives one sentence about its subject in double
/// quotes: the dotted path, or the name that the fault is about.
pub open spec fn message_of(failure: Failure) -> Seq<char> {
    if failure.kind == ErrorKind::Syntax {
        failure.detail
    } else {
        let subject = if names_detail(failure.kind) {
            failure.detail
        } else {
            dotted(failure.path)
        };
        opening(failure.kind) + seq!['"'] + subject + seq!['"'] + closing(failure.kind)
    }
}

/// A number written in decimal digits reads back as itself.
pub proof fn lemma_decimal_reads_back(number: nat)
    ensures
        decimal(number).len() > 0,
        all_digits(decimal(number), 10),
        digits_value(decimal(number), 10) == number,
    decreases number,
{
    if number < 10 {
        let text = decimal(number);
        assert(text.drop_last() =~= Seq::<char>::empty());
        assert(digits_value(text.drop_last(), 10) == 0);
        assert(digit_value(text.last()) == Some(number as int));
    } else {
        lemma_decimal_reads_back(number / 10);
        let text = decimal(number);
        let shorter = decimal(number / 10);
        assert(text.drop_last() =~= shorter);
        assert(digit_value(text.last()) == Some((number % 10) as int));
        assert forall|i: int| 0 <= i < text.len() implies crate::text::is_digit(
            #[trigger] text[i],
            10,
        ) by {
            if i < shorter.len() {
                assert(text[i] == shorter[i]);
            }
        }
    }
}

/// The text of a digit below ten.
pub fn digit_text(digit: usize) -> (text: &'static str)
    requires
        digit < 10,
    ensures
        text@ == seq![digit_char(digit as nat)],
{
    proof {
        reveal_strlit("0");
        reveal_strlit("1");
        reveal_strlit("2");
        reveal_strlit("3");
        reveal_strlit("4");
        reveal_strlit("5");
        reveal_strlit("6");
        reveal_strlit("7");
        reveal_strlit("8");
        reveal_strlit("9");
    }
    let text = if digit == 0 {
        "0"
    } else if digit == 1 {
        "1"
    } else if digit == 2 {
        "2"
    } else if digit == 3 {
        "3"
    } else if digit == 4 {
        "4"
    } else if digit == 5 {
        "5"
    } else if digit == 6 {
        "6"
    } else if digit == 7 {
        "7"
    } else if digit == 8 {
        "8"
    } else {
        "9"
    };
    assert(text@ =~= seq![digit_char(digit as nat)]);
    text
}

/// Writes a number in decimal digits.
pub fn decimal_text(number: usize) -> (text: String)
    ensures
        text@ == decimal(number as nat),
    decreases number,
{
    if number < 10 {
        digit_text(number).to_owned()
    } else {
        let mut text = decimal_text(number / 10);
        text.append(digit_text(number % 10));
        text
    }
}

impl ConfigError {
    /// The path of the error as text: keys and indices from the root on,
    /// with dots between them.
    pub fn location(&self) -> (text: String)
        ensures
            text@ == dotted(self@.path),
    {
        let mut text = String::new();
        let mut at: usize = 0;
        while at < self.path.len()
            invariant
                at <= self.path.len(),
                text@ == dotted(steps(self.path@).take(at as int)),
            decreases self.path.len() - at,
        {
            let ghost before = steps(self.path@).take(at as int);
            let ghost after = steps(self.path@).take(at + 1);
            proof {
                reveal_strlit(".");
                assert(after.drop_last() =~= before);
                assert(after.last() == self.path@[at as int]@);
                assert(".".view() =~= seq!['.']);
            }
            if at > 0 {
                text.append(".");
            }
            match &self.path[at] {
                Segment::Key(name) => {
                    text.append(name.as_str());
                },
                Segment::Index(nth) => {
                    let digits = decimal_text(*nth);
                    text.append(digits.as_str());
                },
            }
            proof {
                if at == 0 {
                    assert(text@ =~= step_text(after[0]));
                }
            }
            at = at + 1;
        }
        proof {
            assert(steps(self.path@).take(at as int) =~= steps(self.path@));
        }
        text
    }

    /// The message of the error, for a reader.
    pub fn message(&self) -> (text: String)
        ensures
            text@ == message_of(self@),
    {
        let (opening_text, closing_text, by_name) = match self.kind {
            ErrorKind::Syntax => {
                return self.detail.clone();
            },
            ErrorKind::NotAString => ("", " is not a string", false),
            ErrorKind::NotAnInteger => ("", " is not an integer", false),
            ErrorKind::NotABoolean => ("", " is not a boolean", false),
            ErrorKind::NotAnArray => ("", " is not an array", false),
            ErrorKind::NotATable => ("", " is not a table", false),
            ErrorKind::OutOfRange => ("", " is out of range", false),
            ErrorKind::InvalidValue => ("", " has an invalid value", false),
            ErrorKind::InvalidAxisName => ("", " is not the name of an absolute axis", false),
            ErrorKind::UnrecognizedKey => ("unrecognized key: ", "", false),
            ErrorKind::Missing => ("missing ", "", false),
            ErrorKind::UnknownScriptDevice => (
                "[[script]] refers to a non-existing device filter: ",
                "",
                true,
            ),
            ErrorKind::NameCollision => (
                "same name used as a device filter and a virtual device: ",
                "",
                true,
            ),
            ErrorKind::UnknownRedirectTarget => (
                "[[virtual-device]]'s 'redirect-force-feedback-to' refers to a non-existing device filter: ",
                "",
                true,
            ),
        };
        proof {
            reveal_strlit("");
            reveal_strlit("\"");
            assert("".view() =~= Seq::<char>::empty());
            assert("\"".view() =~= seq!['"']);
            assert(opening_text@ == opening(self.kind));
            assert(closing_text@ == closing(self.kind));
            assert(by_name == names_detail(self.kind));
        }
        let mut text = opening_text.to_owned();
        text.append("\"");
        if by_name {
            text.append(self.detail.as_str());
        } else {
            let place = self.location();
            text.append(place.as_str());
        }
        text.append("\"");
        text.append(closing_text);
        text
    }
}

} // verus!
