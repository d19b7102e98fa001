use vstd::prelude::*;

use crate::text::{lower_of, lowercase, same_text};

verus! {

/// Instructor of defence against fresh fruit.
#[derive(Clone, Copy, PartialEq, Eq, Structural, Debug)]
pub struct Instructor;

/// A student and their weapon of choice.
pub struct Student {
    pub weapon: String,
}

/// The instructor's counter to a weapon, given its name in lower case.
pub open spec fn counter_to(folded: Seq<char>) -> Seq<char> {
    if folded == "banana"@ {
        "Instructor shoots Mr Apricot"@
    } else if folded == "raspberry"@ {
        "Instructor drops a 16 ton weight on Mr Tinned Peach"@
    } else {
        "Instructor releases a tiger"@
    }
}

/// The instructor's counter to a weapon, given its name already in lower case.
pub fn counter_for_folded(folded: &str) -> (r: &'static str)
    ensures
        r@ == counter_to(folded@),
{
    if same_text(folded, "banana") {
        "Instructor shoots Mr Apricot"
    } else if same_text(folded, "raspberry") {
        "Instructor drops a 16 ton weight on Mr Tinned Peach"
    } else {
        "Instructor releases a tiger"
    }
}

impl Student {
    pub fn new(weapon: String) -> (r: Self)
        ensures
            r.weapon@ == weapon@,
    {
        Student { weapon }
    }

    /// The line of the student's attack.
    pub fn attack(&self) -> (r: String)
        ensures
            r@ == "Student attacks with a "@ + self.weapon@,
    {
        let mut line = String::from_str("Student attacks with a ");
        line.append(self.weapon.as_str());
        line
    }

    pub fn repr(&self) -> (r: String)
        ensures
            r@ == "<Student wielding a "@ + self.weapon@ + ">"@,
    {
        let mut s = String::from_str("<Student wielding a ");
        s.append(self.weapon.as_str());
        s.append(">");
        s
    }
}

impl Instructor {
    pub fn new() -> (r: Self) {
        Instructor
    }

    /// Defends against a student: the student attacks first, then the
    /// instructor counters according to the weapon, whatever its letter case.
    pub fn defend(&self, student: &Student) -> (r: Vec<String>)
        ensures
            r.len() == 2,
            r[0]@ == "Student attacks with a "@ + student.weapon@,
            r[1]@ == counter_to(lower_of(student.weapon@)),
    {
        let mut lines: Vec<String> = Vec::new();
        lines.push(student.attack());
        let folded = lowercase(student.weapon.as_str());
        lines.push(String::from_str(counter_for_folded(folded.as_str())));
        lines
    }

    pub fn repr(&self) -> (r: &'static str)
        ensures
            r@ == "<Instructor>"@,
    {
        "<Instructor>"
    }
}

} // verus!
