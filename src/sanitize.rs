use vstd::prelude::*;

verus! {

/// The characters of Unicode general category `Cc`: U+0000..U+001F and U+007F..U+009F.
pub open spec fn is_control_char(c: char) -> bool {
    (c as u32) <= 0x1f || (0x7f <= (c as u32) && (c as u32) <= 0x9f)
}

/// Line feed, carriage return and tab: the control characters that become a space.
pub open spec fn is_line_break(c: char) -> bool {
    c == '\n' || c == '\r' || c == '\t'
}

/// What a single character of a message becomes once cleaned.
pub open spec fn clean_char(c: char) -> Seq<char> {
    if is_line_break(c) {
        seq![' ']
    } else if is_control_char(c) {
        Seq::empty()
    } else {
        seq![c]
    }
}

/// A message with each line break replaced by one space and every other
/// control character dropped.
pub open spec fn cleaned(s: Seq<char>) -> Seq<char>
    decreases s.len(),
{
    if s.len() == 0 {
        Seq::empty()
    } else {
        cleaned(s.drop_last()) + clean_char(s.last())
    }
}

/// The cleaned message, cut to its first `max_len` characters when longer.
pub open spec fn sanitized(s: Seq<char>, max_len: nat) -> Seq<char> {
    let c = cleaned(s);
    if c.len() > max_len {
        c.take(max_len as int)
    } else {
        c
    }
}

/// True when no character of `s` is a control character.
pub open spec fn free_of_control(s: Seq<char>) -> bool {
    forall|i: int| 0 <= i < s.len() ==> !is_control_char(#[trigger] s[i])
}

fn is_control(c: char) -> (r: bool)
    ensures
        r == is_control_char(c),
{
    let v = c as u32;
    v <= 0x1f || (0x7f <= v && v <= 0x9f)
}

/// Relies on `String::push`: appends one character.
#[verifier::external_body]
fn push_char(s: &mut String, c: char)
    ensures
        final(s)@ == old(s)@.push(c),
{
    s.push(c)
}

/// Replaces each line break of `message` by a space, drops every other control
/// character, and keeps at most the first `max_len` characters of what is left.
pub fn sanitize_message(message: &str, max_len: usize) -> (r: String)
    ensures
        r@ == sanitized(message@, max_len as nat),
{
    let mut out = String::new();
    let mut n: usize = 0;
    let total = message.unicode_len();
    for c in it: message.chars()
        invariant
            it.seq() == message@,
            out@ == cleaned(message@.take(it.index() as int)),
            n as nat == out@.len(),
            n <= it.index(),
            total as nat == message@.len(),
    {
        let ghost prefix = message@.take(it.index() as int);
        proof {
            assert(message@.take(it.index() + 1).drop_last() == prefix);
        }
        if c == '\n' || c == '\r' || c == '\t' {
            push_char(&mut out, ' ');
            n = n + 1;
        } else if !is_control(c) {
            push_char(&mut out, c);
            n = n + 1;
        }
        proof {
            assert(out@ =~= cleaned(message@.take(it.index() + 1)));
        }
    }
    proof {
        assert(message@.take(message@.len() as int) == message@);
    }
    if n > max_len {
        out.as_str().substring_char(0, max_len).to_owned()
    } else {
        out
    }
}

proof fn lemma_cleaned_free(s: Seq<char>)
    ensures
        free_of_control(cleaned(s)),
    decreases s.len(),
{
    if s.len() > 0 {
        lemma_cleaned_free(s.drop_last());
        let a = cleaned(s.drop_last());
        let b = clean_char(s.last());
        assert forall|i: int| 0 <= i < cleaned(s).len() implies !is_control_char(
            #[trigger] cleaned(s)[i],
        ) by {
            if i < a.len() {
                assert(cleaned(s)[i] == a[i]);
            } else {
                assert(cleaned(s)[i] == b[i - a.len()]);
            }
        }
    }
}

proof fn lemma_cleaned_fixed(t: Seq<char>)
    requires
        free_of_control(t),
    ensures
        cleaned(t) == t,
    decreases t.len(),
{
    if t.len() > 0 {
        let u = t.drop_last();
        assert(free_of_control(u)) by {
            assert forall|i: int| 0 <= i < u.len() implies !is_control_char(#[trigger] u[i]) by {
                assert(u[i] == t[i]);
            }
        }
        lemma_cleaned_fixed(u);
        assert(!is_control_char(t[t.len() - 1]));
        assert(t =~= u + seq![t.last()]);
    }
}

/// Sanitising is idempotent, and its result holds no control character.
pub proof fn lemma_sanitize_idempotent(s: Seq<char>, max_len: nat)
    ensures
        free_of_control(sanitized(s, max_len)),
        sanitized(sanitized(s, max_len), max_len) == sanitized(s, max_len),
{
    let c = cleaned(s);
    lemma_cleaned_free(s);
    let r = sanitized(s, max_len);
    assert(free_of_control(r)) by {
        if c.len() > max_len {
            assert forall|i: int| 0 <= i < r.len() implies !is_control_char(#[trigger] r[i]) by {
                assert(r[i] == c[i]);
            }
        }
    }
    lemma_cleaned_fixed(r);
}

/// A message longer than the limit comes out exactly at the limit, unless
/// dropping its control characters already brings it below the limit.
pub proof fn lemma_sanitize_truncates(s: Seq<char>, max_len: nat)
    requires
        s.len() > max_len,
        cleaned(s).len() >= max_len,
    ensures
        sanitized(s, max_len).len() == max_len,
{
}

} // verus!
