use vstd::prelude::*;

verus! {

/// Whether a character counts as alphanumeric for title sanitisation.
/// The classification is a fixed Unicode character property.
pub uninterp spec fn is_alnum(c: char) -> bool;

/// Relies on char::is_alphanumeric: a fixed Unicode character property,
/// a function of the character alone.
#[verifier::external_body]
fn char_is_alphanumeric(c: char) -> (r: bool)
    ensures
        r == is_alnum(c),
{
    c.is_alphanumeric()
}

/// Relies on String::push: appends the one character at the end.
#[verifier::external_body]
fn push_char(s: &mut String, c: char)
    ensures
        final(s)@ == old(s)@.push(c),
{
    s.push(c);
}

/// One character of a sanitised title: alphanumerics and spaces pass through,
/// every other character becomes an underscore.
pub open spec fn safe_char(c: char) -> char {
    if is_alnum(c) || c == ' ' {
        c
    } else {
        '_'
    }
}

/// The sanitised form of a title: each character mapped through `safe_char`,
/// one to one, with no collapsing of consecutive replacements.
pub open spec fn safe_title_spec(s: Seq<char>) -> Seq<char> {
    s.map_values(|c: char| safe_char(c))
}

/// Derives the filesystem-safe directory name for a video title.
pub fn safe_title(title: &str) -> (r: String)
    ensures
        r@ == safe_title_spec(title@),
{
    let n = title.unicode_len();
    let mut out = String::new();
    let mut i: usize = 0;
    while i < n
        invariant
            n == title@.len(),
            i <= n,
            out@ == safe_title_spec(title@.take(i as int)),
        decreases n - i,
    {
        let c = title.get_char(i);
        let mapped = if char_is_alphanumeric(c) || c == ' ' {
            c
        } else {
            '_'
        };
        push_char(&mut out, mapped);
        proof {
            assert(title@.take(i + 1int) =~= title@.take(i as int).push(title@[i as int]));
            assert(safe_title_spec(title@.take(i + 1int)) =~= safe_title_spec(
                title@.take(i as int),
            ).push(safe_char(title@[i as int])));
        }
        i += 1;
    }
    proof {
        assert(title@.take(n as int) =~= title@);
    }
    out
}

/// Sanitising is idempotent: a second pass changes nothing, because every
/// character a pass emits is left as it stands by `safe_char`.
pub proof fn lemma_safe_title_idempotent(s: Seq<char>)
    ensures
        safe_title_spec(safe_title_spec(s)) == safe_title_spec(s),
{
    assert forall|i: int| 0 <= i < s.len() implies safe_char(safe_char(s[i])) == safe_char(
        s[i],
    ) by {
        if !(is_alnum(s[i]) || s[i] == ' ') {
            assert(safe_char(s[i]) == '_');
        }
    }
    assert(safe_title_spec(safe_title_spec(s)) =~= safe_title_spec(s));
}

/// Every character of a sanitised title is alphanumeric, a space, or an
/// underscore.
pub proof fn lemma_safe_title_chars(s: Seq<char>)
    ensures
        forall|i: int|
            0 <= i < safe_title_spec(s).len() ==> is_alnum(#[trigger] safe_title_spec(s)[i])
                || safe_title_spec(s)[i] == ' ' || safe_title_spec(s)[i] == '_',
{
}

} // verus!
