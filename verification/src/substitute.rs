//! Expansion of the `{}` placeholder in a command template.

use vstd::prelude::*;
use vstd::string::*;
use crate::text::{extend_texts, push_text};

verus! {

/// The placeholder token: an opening brace directly followed by a closing one.
pub open spec fn is_placeholder(token: Seq<char>) -> bool {
    token == seq!['{', '}']
}

/// What one token of the template stands for: the whole replacement list for
/// the placeholder, the token itself otherwise.
pub open spec fn expansion(token: Seq<char>, replacements: Seq<Seq<char>>) -> Seq<Seq<char>> {
    if is_placeholder(token) {
        replacements
    } else {
        seq![token]
    }
}

/// The template with every placeholder replaced by the replacement list.
pub open spec fn substituted(template: Seq<Seq<char>>, replacements: Seq<Seq<char>>) -> Seq<
    Seq<char>,
>
    decreases template.len(),
{
    if template.len() == 0 {
        Seq::empty()
    } else {
        substituted(template.drop_last(), replacements) + expansion(template.last(), replacements)
    }
}

/// Whether `token` is exactly the placeholder.
pub fn is_placeholder_token(token: &String) -> (r: bool)
    ensures
        r == is_placeholder(token@),
{
    let s = token.as_str();
    let hit = s.unicode_len() == 2 && s.get_char(0) == '{' && s.get_char(1) == '}';
    proof {
        if hit {
            assert(token@ =~= seq!['{', '}']);
        }
    }
    hit
}

/// Replaces every token of `args` that is exactly `{}` by the whole of
/// `subs`, and copies every other token unchanged.
pub fn substitute_args(args: &Vec<String>, subs: &Vec<String>) -> (result: Vec<String>)
    ensures
        result.deep_view() == substituted(args.deep_view(), subs.deep_view()),
{
    let mut result: Vec<String> = Vec::with_capacity(args.len());
    assert(result.deep_view() =~= Seq::<Seq<char>>::empty());
    let mut i: usize = 0;
    while i < args.len()
        invariant
            i <= args.len(),
            result.deep_view() == substituted(args.deep_view().take(i as int), subs.deep_view()),
        decreases args.len() - i,
    {
        let ghost prefix = args.deep_view().take(i as int + 1);
        assert(prefix.drop_last() =~= args.deep_view().take(i as int));
        assert(prefix.last() == args[i as int]@);
        if is_placeholder_token(&args[i]) {
            extend_texts(&mut result, subs);
        } else {
            push_text(&mut result, &args[i]);
            assert(result.deep_view() =~= substituted(prefix.drop_last(), subs.deep_view())
                + seq![args[i as int]@]);
        }
        i += 1;
    }
    assert(args.deep_view().take(args.len() as int) =~= args.deep_view());
    result
}

/// Substitution works token by token: a template made of two parts expands
/// to the expansions of the parts, one after the other.  So every occurrence
/// of the placeholder expands on its own.
pub proof fn lemma_substituted_concat(
    left: Seq<Seq<char>>,
    right: Seq<Seq<char>>,
    replacements: Seq<Seq<char>>,
)
    ensures
        substituted(left + right, replacements) == substituted(left, replacements) + substituted(
            right,
            replacements,
        ),
    decreases right.len(),
{
    if right.len() == 0 {
        assert(left + right =~= left);
        assert(substituted(left, replacements) + Seq::<Seq<char>>::empty() =~= substituted(
            left,
            replacements,
        ));
    } else {
        lemma_substituted_concat(left, right.drop_last(), replacements);
        assert((left + right).drop_last() =~= left + right.drop_last());
        assert((left + right).last() == right.last());
        assert(substituted(left + right, replacements) =~= substituted(left, replacements)
            + substituted(right, replacements));
    }
}

/// A template without a placeholder is left as it is.
pub proof fn lemma_substituted_without_placeholder(
    template: Seq<Seq<char>>,
    replacements: Seq<Seq<char>>,
)
    requires
        forall|i: int| 0 <= i < template.len() ==> !is_placeholder(#[trigger] template[i]),
    ensures
        substituted(template, replacements) == template,
    decreases template.len(),
{
    if template.len() > 0 {
        lemma_substituted_without_placeholder(template.drop_last(), replacements);
        assert(template.drop_last().push(template.last()) =~= template);
        assert(substituted(template, replacements) =~= template);
    }
}

/// Each placeholder is replaced by as many tokens as the replacement list
/// holds; with an empty list it vanishes.
pub proof fn lemma_substituted_len(template: Seq<Seq<char>>, replacements: Seq<Seq<char>>)
    ensures
        substituted(template, replacements).len() == template.len() - placeholders(template)
            + placeholders(template) * replacements.len(),
    decreases template.len(),
{
    let n = replacements.len() as int;
    if template.len() == 0 {
        assert(placeholders(template) * n == 0) by (nonlinear_arith)
            requires
                placeholders(template) == 0,
        ;
    } else {
        lemma_substituted_len(template.drop_last(), replacements);
        let p = placeholders(template.drop_last()) as int;
        let q = placeholders(template) as int;
        assert(q == p + 1 ==> q * n == p * n + n) by (nonlinear_arith);
        assert(q == p ==> q * n == p * n) by (nonlinear_arith);
    }
}

/// How many tokens of the template are the placeholder.
pub open spec fn placeholders(template: Seq<Seq<char>>) -> nat
    decreases template.len(),
{
    if template.len() == 0 {
        0
    } else {
        placeholders(template.drop_last()) + if is_placeholder(template.last()) {
            1nat
        } else {
            0nat
        }
    }
}

} // verus!
