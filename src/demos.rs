//! The demonstration routines. Each builds values of one shape and returns
//! the lines it prints, in order; the caller writes them out.
use vstd::prelude::*;
use vstd::utf8::{encode_utf8, is_ascii_chars, is_char_boundary};
use crate::buffer::TextBuffer;
use crate::render::{
    bracketed, debug_text, digit_char, digits_of, int_text, parenthesized, render_i8_list,
    render_record, render_str_list, texts, u8_text, i8_text, int_texts, quoted_texts, joined, bool_text, bool_to_text, char_to_text,
};

verus! {

broadcast use vstd::utf8::group_utf8_lib;

/// `label` followed by `value`.
fn labelled(label: &str, value: &str) -> (r: String)
    ensures
        r@ == label@ + value@,
{
    String::from_str(label).concat(value)
}

/// Adds `more` at the end of `lines`.
fn extend_lines(lines: &mut Vec<String>, more: Vec<String>)
    ensures
        texts(final(lines)@) == texts(old(lines)@) + texts(more@),
{
    let ghost added = more@;
    let mut more = more;
    lines.append(&mut more);
    assert(texts(lines@) =~= texts(old(lines)@) + texts(added));
}

/// The lines of the scalar demonstration, given the natural rendering of the
/// 32-bit float it shows.
pub open spec fn primitive_lines(float_text: Seq<char>) -> Seq<Seq<char>> {
    seq![
        "Value of integer 8: 42"@,
        "Value of float 32: "@ + float_text,
        "Value of boolean: true"@,
        "Value of character: z"@,
    ]
}

/// Shows an 8-bit integer, a 32-bit float, a boolean and a character.
/// The float's natural rendering is `float_text`.
pub fn primitive_data_type(float_text: &str) -> (r: Vec<String>)
    ensures
        texts(r@) == primitive_lines(float_text@),
{
    proof {
        reveal_strlit("Value of integer 8: ");
        reveal_strlit("Value of integer 8: 42");
        reveal_strlit("Value of boolean: ");
        reveal_strlit("Value of boolean: true");
        reveal_strlit("Value of character: ");
        reveal_strlit("Value of character: z");
        reveal_with_fuel(digits_of, 2);
    }
    let integer: i8 = 42;
    let boolean: bool = true;
    let character: char = 'z';
    let l0 = labelled("Value of integer 8: ", i8_text(integer).as_str());
    let l1 = labelled("Value of float 32: ", float_text);
    let l2 = labelled("Value of boolean: ", bool_to_text(boolean).as_str());
    let l3 = labelled("Value of character: ", char_to_text(character).as_str());
    assert(digit_char(4) == '4' && digit_char(2) == '2');
    assert(int_text(42) =~= seq!['4', '2']);
    assert(l0@ =~= "Value of integer 8: 42"@);
    assert(l2@ =~= "Value of boolean: true"@);
    assert(l3@ =~= "Value of character: z"@);
    let lines = vec![l0, l1, l2, l3];
    assert(texts(lines@) =~= primitive_lines(float_text@));
    lines
}

/// The lines of the fixed-size sequence demonstration.
pub open spec fn array_lines() -> Seq<Seq<char>> {
    seq![
        "Values in the array of integer 8: [1, 2, 3, 4, 5]"@,
        "Values in the array of string slices: "@ + bracketed(
            seq![debug_text("Apple"@), debug_text("Banana"@), debug_text("Pineapple"@)],
        ),
    ]
}

/// Shows a fixed-size sequence of five integers and one of three texts.
pub fn arrays() -> (r: Vec<String>)
    ensures
        texts(r@) == array_lines(),
{
    proof {
        reveal_strlit("Values in the array of integer 8: ");
        reveal_strlit("Values in the array of integer 8: [1, 2, 3, 4, 5]");
    }
    let numbers: [i8; 5] = [1, 2, 3, 4, 5];
    let l0 = labelled("Values in the array of integer 8: ", render_i8_list(&numbers).as_str());
    let fruits: [&str; 3] = ["Apple", "Banana", "Pineapple"];
    let l1 = labelled("Values in the array of string slices: ", render_str_list(&fruits).as_str());
    proof {
        let nums = seq![1i8, 2, 3, 4, 5];
        assert(numbers@ =~= nums);
        assert(int_text(1) =~= seq!['1']);
        assert(int_text(2) =~= seq!['2']);
        assert(int_text(3) =~= seq!['3']);
        assert(int_text(4) =~= seq!['4']);
        assert(int_text(5) =~= seq!['5']);
        assert(int_texts(nums) =~= seq![seq!['1'], seq!['2'], seq!['3'], seq!['4'], seq!['5']]);
        reveal_with_fuel(joined, 5);
        assert(l0@ =~= "Values in the array of integer 8: [1, 2, 3, 4, 5]"@);
        assert(quoted_texts(fruits@) =~= seq![
            debug_text("Apple"@),
            debug_text("Banana"@),
            debug_text("Pineapple"@),
        ]);
    }
    let lines = vec![l0, l1];
    assert(texts(lines@) =~= array_lines());
    lines
}

/// The line of the record demonstration.
pub open spec fn tuple_lines() -> Seq<Seq<char>> {
    seq!["Values in tuple: "@ + parenthesized(seq![debug_text("Shashank"@), "25"@, "true"@])]
}

/// Shows a record of a name, an age and a flag.
pub fn tuples() -> (r: Vec<String>)
    ensures
        texts(r@) == tuple_lines(),
{
    proof {
        reveal_strlit("25");
        reveal_strlit("true");
        reveal_with_fuel(digits_of, 2);
    }
    let name = String::from_str("Shashank");
    let human: (String, i8, bool) = (name, 25, true);
    let l0 = labelled("Values in tuple: ", render_record(human.0.as_str(), human.1, human.2).as_str());
    proof {
        assert(digit_char(2) == '2' && digit_char(5) == '5');
        assert(int_text(25) =~= "25"@);
        assert(bool_text(true) =~= "true"@);
    }
    let lines = vec![l0];
    assert(texts(lines@) =~= tuple_lines());
    lines
}

/// The lines of the view demonstration.
pub open spec fn slice_lines() -> Seq<Seq<char>> {
    seq![
        "Values in number slice: [1, 2]"@,
        "Values in strings slice: "@ + bracketed(seq![debug_text("Elephant"@), debug_text("Lion"@)]),
    ]
}

/// Shows views over a sequence of integers and over a sequence of owned texts.
pub fn slices() -> (r: Vec<String>)
    ensures
        texts(r@) == slice_lines(),
{
    proof {
        reveal_strlit("Values in number slice: ");
        reveal_strlit("Values in number slice: [1, 2]");
    }
    let owned: [i8; 2] = [1, 2];
    let numbers: &[i8] = owned.as_slice();
    let l0 = labelled("Values in number slice: ", render_i8_list(numbers).as_str());
    let elephant = String::from_str("Elephant");
    let lion = String::from_str("Lion");
    let names: [&str; 2] = [elephant.as_str(), lion.as_str()];
    let strings: &[&str] = names.as_slice();
    let l1 = labelled("Values in strings slice: ", render_str_list(strings).as_str());
    proof {
        let nums = seq![1i8, 2];
        assert(numbers@ =~= nums);
        assert(int_text(1) =~= seq!['1']);
        assert(int_text(2) =~= seq!['2']);
        assert(int_texts(nums) =~= seq![seq!['1'], seq!['2']]);
        reveal_with_fuel(joined, 2);
        assert(l0@ =~= "Values in number slice: [1, 2]"@);
        assert(quoted_texts(strings@) =~= seq![debug_text("Elephant"@), debug_text("Lion"@)]);
    }
    let lines = vec![l0, l1];
    assert(texts(lines@) =~= slice_lines());
    lines
}

/// The lines of the type demonstrations, in order.
pub open spec fn type_lines(float_text: Seq<char>) -> Seq<Seq<char>> {
    primitive_lines(float_text) + array_lines() + tuple_lines() + slice_lines()
}

/// Runs the scalar demonstration, then the compound ones: fixed-size
/// sequences, the record and views.
pub fn types(float_text: &str) -> (r: Vec<String>)
    ensures
        texts(r@) == type_lines(float_text@),
{
    let mut lines = primitive_data_type(float_text);
    extend_lines(&mut lines, arrays());
    extend_lines(&mut lines, tuples());
    extend_lines(&mut lines, slices());
    lines
}

/// The lines of the mutability demonstration.
pub open spec fn mutability_lines() -> Seq<Seq<char>> {
    seq!["I am "@, "Now, I am not good, meh!"@, "Value of string slice is not "@]
}

/// Shows a growable buffer: empty, then cleared and appended to, then a view
/// of its first four bytes.
pub fn mutability() -> (r: Vec<String>)
    ensures
        texts(r@) == mutability_lines(),
{
    proof {
        reveal_strlit("");
        reveal_strlit("I am ");
        reveal_strlit("not good, meh!");
        reveal_strlit("Now, I am ");
        reveal_strlit("Now, I am not good, meh!");
        reveal_strlit("Value of string slice is ");
        reveal_strlit("Value of string slice is not ");
    }
    let mut state = TextBuffer::new();
    let l0 = labelled("I am ", state.as_str());
    state.clear();
    state.push_str("not good, meh!");
    let l1 = labelled("Now, I am ", state.as_str());
    proof {
        assert(state@ =~= "not good, meh!"@);
        assert(is_ascii_chars(state@));
        let bytes = encode_utf8(state@);
        assert(bytes.len() == 14);
        assert(bytes[4] == 'g' as u8);
        vstd::utf8::is_char_boundary_iff_not_is_continuation_byte(bytes, 4);
        assert(is_char_boundary(bytes, 4));
    }
    let slice: &str = state.prefix(4);
    let l2 = labelled("Value of string slice is ", slice);
    assert(l0@ =~= "I am "@);
    assert(l1@ =~= "Now, I am not good, meh!"@);
    assert(l2@ =~= "Value of string slice is not "@);
    let lines = vec![l0, l1, l2];
    assert(texts(lines@) =~= mutability_lines());
    lines
}

/// The block that describes a person, given the natural renderings of their
/// name, age and height: four lines, each ended by a line break.
pub open spec fn human_text(name: Seq<char>, age: Seq<char>, height: Seq<char>) -> Seq<char> {
    "Human details are:\n Name: "@ + name + "\n Age: "@ + age + "\n Height: "@ + height + "\n"@
}

/// Describes a person by name, age and height. The height, a 32-bit float,
/// is given by its natural rendering.
pub fn human(name: &str, age: u8, height: &str) -> (r: String)
    ensures
        r@ == human_text(name@, int_text(age as int), height@),
{
    let age_text = u8_text(age);
    let mut out = String::from_str("Human details are:\n Name: ");
    out.append(name);
    out.append("\n Age: ");
    out.append(age_text.as_str());
    out.append("\n Height: ");
    out.append(height);
    out.append("\n");
    assert(out@ =~= human_text(name@, int_text(age as int), height@));
    out
}

/// Computes the product of a price of 5 and a quantity of 10 in a block
/// expression.
pub fn expressions() -> (r: i32)
    ensures
        r == 50,
{
    let total: i32 = {
        let price: i32 = 5;
        let qty: i32 = 10;
        price * qty
    };
    total
}

/// Everything the program prints, one entry per `println`: a greeting, the
/// type demonstrations, the mutability demonstration and the description of
/// one person.
pub open spec fn transcript_lines(float_text: Seq<char>, height: Seq<char>) -> Seq<Seq<char>> {
    seq!["Hello, world!"@] + type_lines(float_text) + mutability_lines() + seq![
        human_text("Shashank"@, "25"@, height),
    ]
}

/// Runs the demonstrations in order after the greeting. `float_text` is the
/// natural rendering of the float of the scalar demonstration and `height`
/// that of the person's height.
pub fn transcript(float_text: &str, height: &str) -> (r: Vec<String>)
    ensures
        texts(r@) == transcript_lines(float_text@, height@),
        r@.len() > 0,
        r@[0]@ == "Hello, world!"@,
{
    let mut lines: Vec<String> = vec![String::from_str("Hello, world!")];
    extend_lines(&mut lines, types(float_text));
    extend_lines(&mut lines, mutability());
    let person = human("Shashank", 25, height);
    proof {
        reveal_strlit("25");
        reveal_with_fuel(digits_of, 2);
        assert(digit_char(2) == '2' && digit_char(5) == '5');
        assert(int_text(25) =~= "25"@);
    }
    let ghost before = lines@;
    lines.push(person);
    assert(texts(lines@) =~= texts(before) + seq![person@]);
    assert(texts(lines@) =~= transcript_lines(float_text@, height@));
    assert(texts(lines@)[0] == lines@[0]@);
    lines
}

} // verus!
