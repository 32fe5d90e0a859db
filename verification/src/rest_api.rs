//! The node's REST greeting route.

use vstd::prelude::*;

verus! {

/// The answer of the REST greeting route for `name`.
pub open spec fn greeting_text(name: Seq<char>) -> Seq<char> {
    "Hello, "@ + name + "!"@
}

/// The answer of the REST greeting route: `Hello, <name>!`.
pub fn greeting(name: &str) -> (answer: String)
    ensures
        answer@ == greeting_text(name@),
        answer@.len() == name@.len() + 8,
        answer@.subrange(0, 7) == "Hello, "@,
        answer@.subrange(7, 7 + name@.len() as int) == name@,
        answer@.last() == '!',
{
    proof {
        lemma_greeting_holds_whole_name(name@);
    }
    let mut answer = "Hello, ".to_owned();
    answer.append(name);
    answer.append("!");
    answer
}

/// The greeting is `Hello, `, then the whole name, then `!`: it is eight
/// characters longer than the name, and the name stands in it unshortened
/// from the eighth character on.
pub proof fn lemma_greeting_holds_whole_name(name: Seq<char>)
    ensures
        greeting_text(name).len() == name.len() + 8,
        greeting_text(name).subrange(0, 7) == "Hello, "@,
        greeting_text(name).subrange(7, 7 + name.len() as int) == name,
        greeting_text(name).last() == '!',
{
    reveal_strlit("Hello, ");
    reveal_strlit("!");
    let g = greeting_text(name);
    assert(g.subrange(0, 7) =~= "Hello, "@);
    assert(g.subrange(7, 7 + name.len() as int) =~= name);
}

} // verus!
