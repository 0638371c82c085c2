//! Named positions of the steppers: a name and one step count per stepper.

use crate::decimal::{append_decimal, decimal_text};
use vstd::prelude::*;
use vstd::string::StringExecFns;

verus! {

/// A named position.
#[derive(Debug)]
pub struct Position {
    id: i32,
    pub name: String,
    pub position: Vec<u8>,
}

/// The name as `std` writes a string for debugging: between double quotes,
/// with the characters that need it escaped.
pub uninterp spec fn quoted(name: Seq<char>) -> Seq<char>;

/// Calls `std`'s `format!` with the `Debug` form of `name`. The contract
/// claims only that the text depends on the name alone.
#[verifier::external_body]
fn quote(name: &String) -> (text: String)
    ensures
        text@ == quoted(name@),
{
    format!("{:?}", name)
}

/// The numbers of `vector` in decimal, each but the first after a comma and
/// a blank.
pub open spec fn listed(vector: Seq<u8>) -> Seq<char>
    decreases vector.len(),
{
    if vector.len() == 0 {
        Seq::empty()
    } else if vector.len() == 1 {
        decimal_text(vector[0] as nat)
    } else {
        listed(vector.drop_last()) + seq![',', ' '] + decimal_text(vector.last() as nat)
    }
}

/// The describing line for a name that is already in quotes: the name, then
/// the vector between brackets.
pub open spec fn line_of(quoted_name: Seq<char>, vector: Seq<u8>) -> Seq<char> {
    "Name: "@ + quoted_name + ", Vector: ["@ + listed(vector) + seq![']']
}

/// The line that describes a position with this name and this vector.
pub open spec fn described(name: Seq<char>, vector: Seq<u8>) -> Seq<char> {
    line_of(quoted(name), vector)
}

/// Whether `stored` is the position that was built in under this name.
pub open spec fn is_preset(stored: Position, id: int, name: Seq<char>) -> bool {
    stored.id() == id && stored.label() == name && stored.vector() == seq![1u8, 2u8, 3u8]
}

/// Appends the numbers of `vector` to `text`, with a comma and a blank
/// between neighbours.
fn append_listed(text: &mut String, vector: &Vec<u8>)
    ensures
        final(text)@ == old(text)@ + listed(vector@),
{
    let count = vector.len();
    let mut index: usize = 0;
    assert(vector@.take(0) =~= Seq::<u8>::empty());
    assert(text@ =~= old(text)@ + listed(vector@.take(0)));
    while index < count
        invariant
            index <= count,
            count == vector@.len(),
            text@ == old(text)@ + listed(vector@.take(index as int)),
        decreases count - index,
    {
        let ghost before = vector@.take(index as int);
        let ghost longer = vector@.take(index as int + 1);
        assert(longer.drop_last() =~= before);
        assert(longer.last() == vector@[index as int]);
        if index > 0 {
            proof {
                reveal_strlit(", ");
            }
            text.append(", ");
            assert(", "@ =~= seq![',', ' ']);
        }
        append_decimal(text, vector[index] as u64);
        assert(text@ =~= old(text)@ + listed(longer));
        index = index + 1;
    }
    assert(vector@.take(count as int) =~= vector@);
}

/// Writes the describing line around a name that is already in quotes.
pub fn compose_line(quoted_name: &str, vector: &Vec<u8>) -> (line: String)
    ensures
        line@ == line_of(quoted_name@, vector@),
{
    proof {
        reveal_strlit("]");
    }
    let mut line = String::from_str("Name: ");
    line.append(quoted_name);
    line.append(", Vector: [");
    append_listed(&mut line, vector);
    line.append("]");
    assert(line@ =~= line_of(quoted_name@, vector@));
    line
}

impl Position {
    /// The row number of the position.
    pub closed spec fn id(self) -> int {
        self.id as int
    }

    /// The name of the position.
    pub closed spec fn label(self) -> Seq<char> {
        self.name@
    }

    /// The step counts of the position, one per stepper.
    pub closed spec fn vector(self) -> Seq<u8> {
        self.position@
    }

    /// A position with this row number, name and vector.
    pub fn new(id: i32, name: String, position: Vec<u8>) -> (stored: Position)
        ensures
            stored.id() == id,
            stored.label() == name@,
            stored.vector() == position@,
    {
        Position { id, name, position }
    }

    /// The row number of the position.
    pub fn row(&self) -> (id: i32)
        ensures
            id == self.id(),
    {
        self.id
    }

    /// The line that describes the position: the name in quotes, then the
    /// vector in brackets.
    pub fn describe(&self) -> (line: String)
        ensures
            line@ == described(self.label(), self.vector()),
    {
        let name = quote(&self.name);
        compose_line(name.as_str(), &self.position)
    }
}

/// One of the positions that are built in.
fn preset(id: i32, name: &str) -> (stored: Position)
    ensures
        is_preset(stored, id as int, name@),
{
    let mut position: Vec<u8> = Vec::new();
    position.push(1);
    position.push(2);
    position.push(3);
    assert(position@ =~= seq![1u8, 2u8, 3u8]);
    Position::new(id, String::from_str(name), position)
}

/// The positions that a new store starts with: `top`, `bottom` and
/// `forward`, in this order.
pub fn default_positions() -> (presets: Vec<Position>)
    ensures
        presets@.len() == 3,
        is_preset(presets@[0], 0, "top"@),
        is_preset(presets@[1], 1, "bottom"@),
        is_preset(presets@[2], 2, "forward"@),
{
    let mut presets: Vec<Position> = Vec::new();
    presets.push(preset(0, "top"));
    presets.push(preset(1, "bottom"));
    presets.push(preset(2, "forward"));
    presets
}

} // verus!
