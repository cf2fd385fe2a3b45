//! The scripts that the article viewer runs to highlight an article's title
//! in the page it shows, with the title escaped for a single-quoted
//! JavaScript string literal.

use vstd::prelude::*;

use crate::error::concat_str;
use crate::text::{chars_of, push_char};

verus! {

/// How one character is written inside a single-quoted JavaScript literal:
/// backslash, quote, line feed and carriage return behind a backslash.
pub open spec fn js_escape_char(c: char) -> Seq<char> {
    if c == '\\' {
        seq!['\\', '\\']
    } else if c == '\'' {
        seq!['\\', '\'']
    } else if c == '\n' {
        seq!['\\', 'n']
    } else if c == '\r' {
        seq!['\\', 'r']
    } else {
        seq![c]
    }
}

/// `s` written inside a single-quoted JavaScript literal.
pub open spec fn js_escaped(s: Seq<char>) -> Seq<char>
    decreases s.len(),
{
    if s.len() == 0 {
        Seq::empty()
    } else {
        js_escape_char(s[0]) + js_escaped(s.drop_first())
    }
}

/// The character that the escape `\c` stands for in a JavaScript literal.
pub open spec fn js_unescape_char(c: char) -> char {
    if c == 'n' {
        '\n'
    } else if c == 'r' {
        '\r'
    } else {
        c
    }
}

/// What a JavaScript engine reads from the body `t` of a single-quoted literal.
pub open spec fn js_unescaped(t: Seq<char>) -> Seq<char>
    decreases t.len(),
{
    if t.len() == 0 {
        Seq::empty()
    } else if t[0] == '\\' && t.len() >= 2 {
        seq![js_unescape_char(t[1])] + js_unescaped(t.subrange(2, t.len() as int))
    } else {
        seq![t[0]] + js_unescaped(t.drop_first())
    }
}

/// `t` can stand between single quotes as the body of one JavaScript literal:
/// no quote ends it early, no line break splits it, no backslash is left
/// dangling at its end.
pub open spec fn is_literal_body(t: Seq<char>) -> bool
    decreases t.len(),
{
    if t.len() == 0 {
        true
    } else if t[0] == '\\' {
        t.len() >= 2 && is_literal_body(t.subrange(2, t.len() as int))
    } else {
        t[0] != '\'' && t[0] != '\n' && t[0] != '\r' && is_literal_body(t.drop_first())
    }
}

/// Escaping one more character appends its escape.
pub proof fn lemma_js_escaped_push(s: Seq<char>, c: char)
    ensures
        js_escaped(s.push(c)) == js_escaped(s) + js_escape_char(c),
    decreases s.len(),
{
    if s.len() == 0 {
        assert(s.push(c).drop_first() =~= Seq::<char>::empty());
        assert(js_escaped(Seq::<char>::empty()) == Seq::<char>::empty());
        assert(js_escaped(s.push(c)) =~= js_escape_char(c));
    } else {
        lemma_js_escaped_push(s.drop_first(), c);
        assert(s.push(c).drop_first() =~= s.drop_first().push(c));
        assert(js_escaped(s.push(c)) =~= js_escape_char(s[0]) + (js_escaped(s.drop_first())
            + js_escape_char(c)));
    }
}

/// An escaped text is the body of one literal, and the literal reads back as
/// the text that was escaped.
pub proof fn lemma_js_escape_round_trip(s: Seq<char>)
    ensures
        is_literal_body(js_escaped(s)),
        js_unescaped(js_escaped(s)) == s,
    decreases s.len(),
{
    if s.len() > 0 {
        lemma_js_escape_round_trip(s.drop_first());
        let e = js_escape_char(s[0]);
        let rest = js_escaped(s.drop_first());
        let t = e + rest;
        assert(js_escaped(s) == t);
        if e.len() == 2 {
            assert(t.subrange(2, t.len() as int) =~= rest);
            assert(t[0] == '\\');
            assert(js_unescaped(t) =~= seq![js_unescape_char(t[1])] + js_unescaped(rest));
        } else {
            assert(t.drop_first() =~= rest);
            assert(t[0] == s[0]);
        }
        assert(s =~= seq![s[0]] + s.drop_first());
    }
}

/// `s` escaped for a single-quoted JavaScript literal.
pub fn escape_for_js(s: &str) -> (r: String)
    ensures
        r@ == js_escaped(s@),
        is_literal_body(r@),
        js_unescaped(r@) == s@,
{
    let cs = chars_of(s);
    let mut out = String::new();
    let mut i: usize = 0;
    while i < cs.len()
        invariant
            i <= cs.len(),
            cs@ == s@,
            out@ == js_escaped(cs@.take(i as int)),
        decreases cs.len() - i,
    {
        let c = cs[i];
        proof {
            assert(cs@.take(i + 1) =~= cs@.take(i as int).push(c));
            lemma_js_escaped_push(cs@.take(i as int), c);
        }
        if c == '\\' {
            push_char(&mut out, '\\');
            push_char(&mut out, '\\');
        } else if c == '\'' {
            push_char(&mut out, '\\');
            push_char(&mut out, '\'');
        } else if c == '\n' {
            push_char(&mut out, '\\');
            push_char(&mut out, 'n');
        } else if c == '\r' {
            push_char(&mut out, '\\');
            push_char(&mut out, 'r');
        } else {
            push_char(&mut out, c);
        }
        proof {
            assert(out@ =~= js_escaped(cs@.take(i as int)) + js_escape_char(c));
        }
        i = i + 1;
    }
    proof {
        assert(cs@.take(i as int) =~= s@);
        lemma_js_escape_round_trip(s@);
    }
    out
}

/// The script text before the escaped title in the deferred highlight script.
pub open spec fn deferred_head() -> Seq<char> {
    "(function() {\n            function tryHighlight() {\n                if (typeof window.__rssHighlightTitle === 'function') {\n                    window.__rssHighlightTitle('"@
}

/// The script text after the escaped title in the deferred highlight script.
pub open spec fn deferred_tail() -> Seq<char> {
    "');\n                } else {\n                    setTimeout(tryHighlight, 200);\n                }\n            }\n            setTimeout(tryHighlight, 500);\n        })();"@
}

/// The script run when a page has loaded: it waits until the highlighter that
/// the viewer injects is defined, then highlights `title`.
pub fn build_highlight_eval(title: &str) -> (r: String)
    ensures
        r@ == deferred_head() + js_escaped(title@) + deferred_tail(),
{
    let escaped = escape_for_js(title);
    let s = concat_str("(function() {\n            function tryHighlight() {\n                if (typeof window.__rssHighlightTitle === 'function') {\n                    window.__rssHighlightTitle('", escaped.as_str());
    s.concat("');\n                } else {\n                    setTimeout(tryHighlight, 200);\n                }\n            }\n            setTimeout(tryHighlight, 500);\n        })();")
}

/// The script that highlights `title` in the page shown now, if the
/// highlighter is defined there.
pub fn build_highlight_call(title: &str) -> (r: String)
    ensures
        r@ == "if (typeof window.__rssHighlightTitle === 'function') { window.__rssHighlightTitle('"@ + js_escaped(title@) + "'); }"@,
{
    let escaped = escape_for_js(title);
    let s = concat_str("if (typeof window.__rssHighlightTitle === 'function') { window.__rssHighlightTitle('", escaped.as_str());
    s.concat("'); }")
}

} // verus!
