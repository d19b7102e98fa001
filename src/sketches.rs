use vstd::prelude::*;

use crate::call::CallError;
use crate::text::{decimal, decimal_of, lower_of, lowercase, same_text, signed_decimal, signed_decimal_of, split_at_char, split_on};
use crate::value::{int_of, text_of, Dyn, DynamicValue, Shape, shape_of};

verus! {

/// The failures the sketches report to their caller.
pub enum SketchError {
    /// The argument clinic's time is up.
    NotAllowedToArgue,
    /// A callback gave something other than a boolean.
    NotABool,
    /// `confuse` was asked for a kind of value it does not know, given in lower case.
    UnknownResultType(String),
}

impl SketchError {
    pub fn message(&self) -> (r: String)
        ensures
            match self {
                SketchError::NotAllowedToArgue => r@ == "I'm not allowed to argue any more."@,
                SketchError::NotABool => r@ == "func({}, {}) didn't return a bool!"@,
                SketchError::UnknownResultType(t) => r@ == "Meow. Not sure what to do with "@ + t@,
            },
    {
        match self {
            SketchError::NotAllowedToArgue => String::from_str("I'm not allowed to argue any more."),
            SketchError::NotABool => String::from_str("func({}, {}) didn't return a bool!"),
            SketchError::UnknownResultType(t) => {
                let mut s = String::from_str("Meow. Not sure what to do with ");
                s.append(t.as_str());
                s
            },
        }
    }
}

pub open spec fn completely_different() -> Seq<char> {
    "And now for something completely different"@
}

/// Something completely different: the words of a sentence.
pub fn do_something() -> (r: Vec<String>)
    ensures
        r@.map_values(|w: String| w@) == split_on(completely_different(), ' '),
{
    split_at_char("And now for something completely different", ' ')
}

/// The films and the years they came out.
pub fn movies() -> (r: Vec<(String, u16)>)
    ensures
        r.len() == 3,
        r[0].0@ == "Monty Python and the Holy Grail"@ && r[0].1 == 1975,
        r[1].0@ == "Life of Brian"@ && r[1].1 == 1979,
        r[2].0@ == "The Meaning of Life"@ && r[2].1 == 1983,
{
    let mut r: Vec<(String, u16)> = Vec::new();
    r.push((String::from_str("Monty Python and the Holy Grail"), 1975));
    r.push((String::from_str("Life of Brian"), 1979));
    r.push((String::from_str("The Meaning of Life"), 1983));
    r
}

/// Takes a contrary position when there is an argument to be had.
pub fn are_we_arguing(having_an_argument: bool) -> (r: &'static str)
    ensures
        having_an_argument ==> r@ == "If I argue with you, I must take up a contrary position!"@,
        !having_an_argument ==> r@ == "Yes, but it isn't just saying \"No, it isn't.\""@,
{
    if having_an_argument {
        "If I argue with you, I must take up a contrary position!"
    } else {
        "Yes, but it isn't just saying \"No, it isn't.\""
    }
}

/// The clinic's answer to what the client says, if it has one.
pub open spec fn comeback(says: Seq<char>) -> Option<Seq<char>> {
    if says == "No you haven't."@ {
        Some("Yes I have."@)
    } else if says == "You didn't!"@ {
        Some("I did!"@)
    } else if says == "When?"@ {
        Some("Just now."@)
    } else if says == "You most certainly did not!"@ {
        Some("I most definitely told you!"@)
    } else {
        None
    }
}

/// Answers the client, who says "No you haven't." when saying nothing.
pub fn ive_told_you_once(client_says: Option<String>) -> (r: Result<&'static str, SketchError>)
    ensures
        ({
            let says = match client_says {
                Some(s) => s@,
                None => "No you haven't."@,
            };
            match comeback(says) {
                Some(c) => r matches Ok(t) && t@ == c,
                None => r matches Err(SketchError::NotAllowedToArgue),
            }
        }),
{
    let says: String = match client_says {
        Some(s) => s,
        None => String::from_str("No you haven't."),
    };
    let s = says.as_str();
    if same_text(s, "No you haven't.") {
        Ok("Yes I have.")
    } else if same_text(s, "You didn't!") {
        Ok("I did!")
    } else if same_text(s, "When?") {
        Ok("Just now.")
    } else if same_text(s, "You most certainly did not!") {
        Ok("I most definitely told you!")
    } else {
        Err(SketchError::NotAllowedToArgue)
    }
}

pub open spec fn knight_line(name: Seq<char>, epithet: Seq<char>) -> Seq<char> {
    "Sir "@ + name + ", the "@ + epithet
}

pub open spec fn no_knights() -> Seq<char> {
    "King Arthur has no knights. Perhaps that Black Knight guarding the bridge?"@
}

/// The first keyword entry, from `j` on, whose value is not a string.
pub open spec fn first_non_text(kw: Seq<(String, DynamicValue)>, j: nat) -> Option<nat>
    decreases kw.len() - j,
{
    if j >= kw.len() {
        None
    } else if text_of(kw[j as int].1.model()) is None {
        Some(j)
    } else {
        first_non_text(kw, j + 1)
    }
}

/// Presents the knights given by keyword, one line each; with none given,
/// the one line that says so. Every epithet must be a string.
pub fn knights_at_camelot(knights: &Vec<(String, DynamicValue)>) -> (r: Result<Vec<String>, CallError>)
    ensures
        knights.len() == 0 ==> (r matches Ok(lines) && lines.len() == 1 && lines[0]@ == no_knights()),
        knights.len() > 0 ==> match first_non_text(knights@, 0) {
            Some(j) => r matches Err(CallError::TypeMismatch(n)) && n@ == knights[j as int].0@,
            None => r matches Ok(lines) && lines.len() == knights.len() && forall|i: int|
                0 <= i < knights.len() ==> (#[trigger] lines[i])@ == knight_line(
                    knights[i].0@,
                    text_of(knights[i].1.model())->0,
                ),
        },
{
    let mut lines: Vec<String> = Vec::new();
    if knights.len() == 0 {
        lines.push(String::from_str("King Arthur has no knights. Perhaps that Black Knight guarding the bridge?"));
        return Ok(lines);
    }
    let mut i: usize = 0;
    while i < knights.len()
        invariant
            i <= knights.len(),
            lines.len() == i,
            first_non_text(knights@, 0) == first_non_text(knights@, i as nat),
            forall|m: int|
                0 <= m < i ==> (#[trigger] lines[m])@ == knight_line(
                    knights[m].0@,
                    text_of(knights[m].1.model())->0,
                ),
        decreases knights.len() - i,
    {
        match knights[i].1.as_text() {
            Some(epithet) => {
                let mut line = String::from_str("Sir ");
                line.append(knights[i].0.as_str());
                line.append(", the ");
                line.append(epithet.as_str());
                lines.push(line);
            },
            None => {
                return Err(CallError::TypeMismatch(knights[i].0.clone()));
            },
        }
        i = i + 1;
    }
    Ok(lines)
}

pub open spec fn float_line(thing: Seq<char>) -> Seq<char> {
    "   \""@ + thing + "!\""@
}

/// The lines for the first `n` arguments: one for each string, quoted;
/// other arguments are passed over.
pub open spec fn float_lines(args: Seq<DynamicValue>, n: nat) -> Seq<Seq<char>>
    decreases n,
{
    if n == 0 || n > args.len() {
        Seq::empty()
    } else {
        let before = float_lines(args, (n - 1) as nat);
        match text_of(args[n - 1].model()) {
            Some(s) => before.push(float_line(s)),
            None => before,
        }
    }
}

/// Names the things that float: one quoted line for each string argument.
pub fn things_that_float(args: &Vec<DynamicValue>) -> (r: Vec<String>)
    ensures
        r@.map_values(|l: String| l@) == float_lines(args@, args.len() as nat),
{
    let mut lines: Vec<String> = Vec::new();
    let mut i: usize = 0;
    while i < args.len()
        invariant
            i <= args.len(),
            lines@.map_values(|l: String| l@) == float_lines(args@, i as nat),
        decreases args.len() - i,
    {
        match args[i].as_text() {
            Some(s) => {
                let mut line = String::from_str("   \"");
                line.append(s.as_str());
                line.append("!\"");
                let ghost before = lines@;
                lines.push(line);
                assert(lines@.map_values(|l: String| l@) =~= before.map_values(|l: String| l@).push(line@));
            },
            None => {},
        }
        i = i + 1;
    }
    lines
}

/// What becomes of the value a callback returned: a finished line for a
/// string or an integer, else the kind of value it is.
pub enum CallReport {
    Line(String),
    Real,
    Other,
}

/// Reports on what a callback returned: a string, else a 32-bit integer,
/// else a number, else anything.
pub fn report_call_result(v: &DynamicValue) -> (r: CallReport)
    ensures
        match shape_of(v.model()) {
            Some(Shape::Text) => r matches CallReport::Line(l) && l@ == "Got a string value: '"@
                + text_of(v.model())->0 + "'"@,
            Some(Shape::Integer) => r matches CallReport::Line(l) && l@ == "Got an integral value: "@
                + signed_decimal_of(int_of(v.model())->0),
            Some(Shape::Real) => r is Real,
            _ => r is Other,
        },
{
    if let Some(s) = v.as_text() {
        let mut line = String::from_str("Got a string value: '");
        line.append(s.as_str());
        line.append("'");
        CallReport::Line(line)
    } else if let Some(n) = v.as_int() {
        let mut line = String::from_str("Got an integral value: ");
        let digits = signed_decimal(n);
        line.append(digits.as_str());
        CallReport::Line(line)
    } else if v.converts_to(crate::value::NativeType::Real) {
        CallReport::Real
    } else {
        CallReport::Other
    }
}

/// Whether `(i, j)` is among the pairs a callback is tried on:
/// `1 <= i < max_i` and `i <= j < max_j`.
pub open spec fn in_grid(max_i: int, max_j: int, i: int, j: int) -> bool {
    1 <= i < max_i && i <= j < max_j
}

pub open spec fn lex_less(a: (int, int), b: (int, int)) -> bool {
    a.0 < b.0 || (a.0 == b.0 && a.1 < b.1)
}

/// The pair tried after `(i, j)`: the next one in its row, else the first
/// of the next row, if any.
pub open spec fn next_pair(max_i: int, max_j: int, i: int, j: int) -> Option<(int, int)> {
    if j + 1 < max_j {
        Some((i, j + 1))
    } else if i + 1 < max_i && i + 1 < max_j {
        Some((i + 1, i + 1))
    } else {
        None
    }
}

/// The model of a sweep: its bounds and the pair waiting for a result.
pub struct SweepView {
    pub max_i: int,
    pub max_j: int,
    pub pending: Option<(int, int)>,
}

/// Tries a two-argument callback on every pair `(i, j)` with
/// `1 <= i < max_i` and `i <= j < max_j`, row by row. The caller makes each
/// call and hands the result back; the sweep decides what is reported and
/// which pair comes next.
pub struct ArgumentSweep {
    max_i: u8,
    max_j: u8,
    pending: Option<(u8, u8)>,
}

impl View for ArgumentSweep {
    type V = SweepView;

    closed spec fn view(&self) -> SweepView {
        SweepView {
            max_i: self.max_i as int,
            max_j: self.max_j as int,
            pending: match self.pending {
                Some(p) => Some((p.0 as int, p.1 as int)),
                None => None,
            },
        }
    }
}

impl ArgumentSweep {
    /// The pending pair, when there is one, is a pair of the grid.
    pub open spec fn wf(&self) -> bool {
        match self@.pending {
            Some(p) => in_grid(self@.max_i, self@.max_j, p.0, p.1),
            None => true,
        }
    }

    /// Starts at the first pair of the grid, `(1, 1)`, or finishes at once
    /// when the grid is empty.
    pub fn new(max_i: u8, max_j: u8) -> (r: Self)
        ensures
            r.wf(),
            r@.max_i == max_i,
            r@.max_j == max_j,
            r@.pending == if 1 < max_i && 1 < max_j {
                Some((1int, 1int))
            } else {
                None
            },
    {
        if 1 < max_i && 1 < max_j {
            ArgumentSweep { max_i, max_j, pending: Some((1, 1)) }
        } else {
            ArgumentSweep { max_i, max_j, pending: None }
        }
    }

    /// The pair to call the callback on next, if any is left.
    pub fn pending(&self) -> (r: Option<(u8, u8)>)
        ensures
            match r {
                Some(p) => self@.pending == Some((p.0 as int, p.1 as int)),
                None => self@.pending is None,
            },
    {
        self.pending
    }

    /// Takes the callback's result on the pending pair. A `true` is reported
    /// with a line, a `false` silently; either way the sweep moves on to the
    /// next pair. Anything but a boolean ends the sweep with an error. A
    /// finished sweep takes no more results and stays finished.
    pub fn record(&mut self, result: &DynamicValue) -> (r: Result<Option<String>, SketchError>)
        requires
            old(self).wf(),
        ensures
            final(self).wf(),
            final(self)@.max_i == old(self)@.max_i,
            final(self)@.max_j == old(self)@.max_j,
            match old(self)@.pending {
                None => final(self)@.pending is None && r matches Ok(None),
                Some((i, j)) => match result.model() {
                    Dyn::Bool(b) => {
                        &&& final(self)@.pending == next_pair(old(self)@.max_i, old(self)@.max_j, i, j)
                        &&& b ==> (r matches Ok(Some(line)) && line@ == "func("@ + decimal_of(
                            i as nat,
                        ) + ", "@ + decimal_of(j as nat) + ") is true"@)
                        &&& !b ==> r matches Ok(None)
                    },
                    _ => final(self)@.pending is None && r matches Err(SketchError::NotABool),
                },
            },
    {
        let (i, j) = match self.pending {
            Some(p) => p,
            None => {
                return Ok(None);
            },
        };
        match result {
            DynamicValue::Bool(b) => {
                self.pending = if (j as u16) + 1 < self.max_j as u16 {
                    Some((i, j + 1))
                } else if (i as u16) + 1 < self.max_i as u16 && (i as u16) + 1 < self.max_j as u16 {
                    Some((i + 1, i + 1))
                } else {
                    None
                };
                if *b {
                    let mut line = String::from_str("func(");
                    let a = decimal(i as u32);
                    line.append(a.as_str());
                    line.append(", ");
                    let c = decimal(j as u32);
                    line.append(c.as_str());
                    line.append(") is true");
                    Ok(Some(line))
                } else {
                    Ok(None)
                }
            },
            _ => {
                self.pending = None;
                Err(SketchError::NotABool)
            },
        }
    }
}

/// The sweep visits the grid in order: after a pair of the grid comes the
/// next greater pair of the grid, none being skipped, and the sweep ends
/// only when no greater pair is left.
pub proof fn sweep_visits_in_order(max_i: int, max_j: int, i: int, j: int)
    requires
        in_grid(max_i, max_j, i, j),
    ensures
        match next_pair(max_i, max_j, i, j) {
            Some(n) => in_grid(max_i, max_j, n.0, n.1) && lex_less((i, j), n) && forall|p: (int, int)|
                #![trigger in_grid(max_i, max_j, p.0, p.1)]
                in_grid(max_i, max_j, p.0, p.1) && lex_less((i, j), p) ==> !lex_less(p, n),
            None => forall|p: (int, int)|
                #![trigger in_grid(max_i, max_j, p.0, p.1)]
                in_grid(max_i, max_j, p.0, p.1) ==> !lex_less((i, j), p),
        },
{
}

/// The arguments the repair-shop callback is handed, as one tuple.
pub fn repair_request() -> (r: Vec<String>)
    ensures
        r.len() == 3,
        r[0]@ == "bicycle"@,
        r[1]@ == "repair"@,
        r[2]@ == "man"@,
{
    let mut r: Vec<String> = Vec::new();
    r.push(String::from_str("bicycle"));
    r.push(String::from_str("repair"));
    r.push(String::from_str("man"));
    r
}

/// The line reporting what the repair-shop callback returned.
pub fn repair_reply(v: &DynamicValue) -> (r: String)
    ensures
        match text_of(v.model()) {
            Some(s) => r@ == "Your function returned the string '"@ + s + "'"@,
            None => r@ == "Your function returned some non-string value"@,
        },
{
    match v.as_text() {
        Some(s) => {
            let mut line = String::from_str("Your function returned the string '");
            line.append(s.as_str());
            line.append("'");
            line
        },
        None => String::from_str("Your function returned some non-string value"),
    }
}

/// The word for each shape of value.
pub open spec fn shape_word(s: Shape) -> Seq<char> {
    match s {
        Shape::Text => "string"@,
        Shape::Integer => "integer"@,
        Shape::Real => "float"@,
        Shape::Boolean => "bool"@,
        Shape::List => "list"@,
        Shape::SetShape => "set"@,
        Shape::Dictionary => "dictionary"@,
        Shape::Function => "function"@,
        Shape::Module => "module"@,
    }
}

pub fn shape_name(s: Shape) -> (r: &'static str)
    ensures
        r@ == shape_word(s),
{
    match s {
        Shape::Text => "string",
        Shape::Integer => "integer",
        Shape::Real => "float",
        Shape::Boolean => "bool",
        Shape::List => "list",
        Shape::SetShape => "set",
        Shape::Dictionary => "dictionary",
        Shape::Function => "function",
        Shape::Module => "module",
    }
}

/// Names the cover a value hides behind, by the first shape it is
/// recognised as; `None` when it fits none, and must be shown as it is.
pub fn how_not_to_be_seen(hiding_behind: &DynamicValue) -> (r: Option<String>)
    ensures
        match shape_of(hiding_behind.model()) {
            Some(s) => r matches Some(line) && line@
                == "Mr. Nesbitt has chosen a very obvious piece of cover behind that "@ + shape_word(s),
            None => r is None,
        },
{
    match hiding_behind.shape() {
        Some(s) => {
            let mut line = String::from_str("Mr. Nesbitt has chosen a very obvious piece of cover behind that ");
            line.append(shape_name(s));
            Some(line)
        },
        None => None,
    }
}

/// The bit pattern of the floating-point number 6.18.
pub const SIX_EIGHTEEN: u64 = 0x4018b851eb851eb8;

pub open spec fn its() -> Dyn {
    Dyn::Str("It's"@)
}

pub open spec fn confused_list() -> Dyn {
    Dyn::Sequence(seq![its(), Dyn::Float(SIX_EIGHTEEN), Dyn::Bool(true), Dyn::Null])
}

pub open spec fn confused_tuple() -> Dyn {
    Dyn::Tuple(seq![Dyn::Int(123), Dyn::Float(SIX_EIGHTEEN), its(), Dyn::Bool(true), Dyn::Null])
}

pub open spec fn confused_dict() -> Dyn {
    Dyn::Mapping(
        seq![
            ("int"@, Dyn::Int(123)),
            ("float"@, Dyn::Float(SIX_EIGHTEEN)),
            ("str"@, its()),
            ("bool"@, Dyn::Bool(true)),
            ("none"@, Dyn::Null),
        ],
    )
}

pub open spec fn confused_set() -> Dyn {
    Dyn::SetOf(seq![Dyn::Int(1), Dyn::Int(2), Dyn::Int(3), Dyn::Int(4), its(), Dyn::Bool(true)])
}

/// The value `confuse` makes for a kind of value named in lower case.
pub open spec fn confused_value(folded: Seq<char>) -> Option<Dyn> {
    if folded == "int"@ {
        Some(Dyn::Int(123))
    } else if folded == "float"@ {
        Some(Dyn::Float(SIX_EIGHTEEN))
    } else if folded == "str"@ {
        Some(its())
    } else if folded == "bool"@ {
        Some(Dyn::Bool(true))
    } else if folded == "none"@ {
        Some(Dyn::Null)
    } else if folded == "list"@ {
        Some(confused_list())
    } else if folded == "tuple"@ {
        Some(confused_tuple())
    } else if folded == "dict"@ {
        Some(confused_dict())
    } else if folded == "set"@ {
        Some(confused_set())
    } else {
        None
    }
}

fn six_eighteen() -> (r: DynamicValue)
    ensures
        r.model() == Dyn::Float(SIX_EIGHTEEN),
{
    DynamicValue::Float(SIX_EIGHTEEN)
}

fn null_value() -> (r: DynamicValue)
    ensures
        r.model() == Dyn::Null,
{
    DynamicValue::Null
}

fn its_value() -> (r: DynamicValue)
    ensures
        r.model() == its(),
{
    DynamicValue::Str(String::from_str("It's"))
}

fn list_value() -> (r: DynamicValue)
    ensures
        r.model() == confused_list(),
{
    let v = vec![its_value(), six_eighteen(), DynamicValue::from_bool(true), null_value()];
    let r = DynamicValue::Sequence(v);
    assert(r.model()->Sequence_0 =~= confused_list()->Sequence_0);
    r
}

fn tuple_value() -> (r: DynamicValue)
    ensures
        r.model() == confused_tuple(),
{
    let v = vec![
        DynamicValue::from_int(123),
        six_eighteen(),
        its_value(),
        DynamicValue::from_bool(true),
        null_value(),
    ];
    let r = DynamicValue::Tuple(v);
    assert(r.model()->Tuple_0 =~= confused_tuple()->Tuple_0);
    r
}

fn dict_value() -> (r: DynamicValue)
    ensures
        r.model() == confused_dict(),
{
    let v = vec![
        (String::from_str("int"), DynamicValue::from_int(123)),
        (String::from_str("float"), six_eighteen()),
        (String::from_str("str"), its_value()),
        (String::from_str("bool"), DynamicValue::from_bool(true)),
        (String::from_str("none"), null_value()),
    ];
    let r = DynamicValue::Mapping(v);
    assert(r.model()->Mapping_0 =~= confused_dict()->Mapping_0);
    r
}

fn set_value() -> (r: DynamicValue)
    ensures
        r.model() == confused_set(),
{
    let v = vec![
        DynamicValue::from_int(1),
        DynamicValue::from_int(2),
        DynamicValue::from_int(3),
        DynamicValue::from_int(4),
        its_value(),
        DynamicValue::from_bool(true),
    ];
    let r = DynamicValue::SetOf(v);
    assert(r.model()->SetOf_0 =~= confused_set()->SetOf_0);
    r
}

/// Makes a value of the kind named, already in lower case.
pub fn confuse_folded(folded: &str) -> (r: Result<DynamicValue, SketchError>)
    ensures
        match confused_value(folded@) {
            Some(d) => r matches Ok(v) && v.model() == d,
            None => r matches Err(SketchError::UnknownResultType(t)) && t@ == folded@,
        },
{
    if same_text(folded, "int") {
        Ok(DynamicValue::from_int(123))
    } else if same_text(folded, "float") {
        Ok(six_eighteen())
    } else if same_text(folded, "str") {
        Ok(its_value())
    } else if same_text(folded, "bool") {
        Ok(DynamicValue::from_bool(true))
    } else if same_text(folded, "none") {
        Ok(DynamicValue::Null)
    } else if same_text(folded, "list") {
        Ok(list_value())
    } else if same_text(folded, "tuple") {
        Ok(tuple_value())
    } else if same_text(folded, "dict") {
        Ok(dict_value())
    } else if same_text(folded, "set") {
        Ok(set_value())
    } else {
        Err(SketchError::UnknownResultType(String::from_str(folded)))
    }
}

/// Makes a value of the kind named, whatever the letter case of the name.
pub fn confuse(result_type: &str) -> (r: Result<DynamicValue, SketchError>)
    ensures
        match confused_value(lower_of(result_type@)) {
            Some(d) => r matches Ok(v) && v.model() == d,
            None => r matches Err(SketchError::UnknownResultType(t)) && t@ == lower_of(result_type@),
        },
{
    let folded = lowercase(result_type);
    confuse_folded(folded.as_str())
}

/// The line reporting the argument received, whose default is 123.
pub fn py_defaultvalue(n: u32) -> (r: String)
    ensures
        r@ == "received n = "@ + decimal_of(n as nat),
{
    let mut line = String::from_str("received n = ");
    let digits = decimal(n);
    line.append(digits.as_str());
    line
}

} // verus!
