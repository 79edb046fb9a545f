//! Names of lifted rules: the PascalCase of a source identifier.

use vstd::prelude::*;
use vstd::string::StrSliceExecFns;
use crate::text::push_char;

verus! {

/// The upper-case form of an ASCII letter; any other character is itself.
pub open spec fn ascii_upper(c: char) -> char {
    if 'a' <= c && c <= 'z' {
        ((c as u8) - 32) as char
    } else {
        c
    }
}

/// The PascalCase of the characters that follow the first: an underscore
/// is dropped and the character after it is put in upper case.
pub open spec fn pascal_rest(name: Seq<char>) -> Seq<char>
    decreases name.len(),
{
    if name.len() == 0 {
        name
    } else if name[0] != '_' {
        seq![name[0]] + pascal_rest(name.skip(1))
    } else if name.len() == 1 {
        Seq::<char>::empty()
    } else {
        seq![ascii_upper(name[1])] + pascal_rest(name.skip(2))
    }
}

/// The PascalCase of an identifier: its first character in upper case, then
/// the rest with each underscore dropped and the character after it in
/// upper case. A first or doubled underscore is kept as a character.
pub open spec fn pascal_case(name: Seq<char>) -> Seq<char> {
    if name.len() == 0 {
        name
    } else {
        seq![ascii_upper(name[0])] + pascal_rest(name.skip(1))
    }
}

/// Puts an ASCII letter in upper case.
pub fn to_ascii_upper(c: char) -> (upper: char)
    ensures
        upper == ascii_upper(c),
{
    if 'a' <= c && c <= 'z' {
        ((c as u8) - 32) as char
    } else {
        c
    }
}

/// Turns a source identifier into the name of a rule.
#[allow(non_snake_case)]
pub fn ToPascalCase(string: String) -> (ret: String)
    ensures
        ret@ == pascal_case(string@),
{
    let name = string.as_str();
    let len = name.unicode_len();
    let mut ret = String::new();
    if len == 0 {
        assert(string@ =~= Seq::<char>::empty());
        return ret;
    }
    push_char(&mut ret, to_ascii_upper(name.get_char(0)));
    let mut i: usize = 1;
    while i < len
        invariant
            1 <= i <= len,
            len == name@.len(),
            ret@ + pascal_rest(name@.skip(i as int)) == pascal_case(name@),
        decreases len - i,
    {
        let c = name.get_char(i);
        let ghost before = ret@;
        let ghost rest = name@.skip(i as int);
        if c != '_' {
            push_char(&mut ret, c);
            proof {
                assert(rest.skip(1) =~= name@.skip(i + 1));
                assert(before.push(c) + pascal_rest(rest.skip(1)) =~= before + (seq![c]
                    + pascal_rest(rest.skip(1))));
            }
            i = i + 1;
        } else if i + 1 < len {
            let upper = to_ascii_upper(name.get_char(i + 1));
            push_char(&mut ret, upper);
            proof {
                assert(rest.skip(2) =~= name@.skip(i + 2));
                assert(before.push(upper) + pascal_rest(rest.skip(2)) =~= before + (seq![upper]
                    + pascal_rest(rest.skip(2))));
            }
            i = i + 2;
        } else {
            proof {
                assert(before + pascal_rest(rest) =~= before + pascal_rest(name@.skip(i + 1)));
            }
            i = i + 1;
        }
    }
    proof {
        assert(ret@ + pascal_rest(name@.skip(i as int)) =~= ret@);
    }
    ret
}

} // verus!
