//! XML text building.
//!
//! The hypervisor consumes domain definitions as XML text. The text is
//! composed by concatenation; the only subtlety is escaping, for text
//! content and attribute values alike.

use vstd::prelude::*;
use crate::strutil::push_char;

verus! {

/// The escape of one character: the five XML metacharacters become
/// entities, every other character stands for itself.
pub open spec fn xml_escape_char(c: char) -> Seq<char> {
    if c == '&' {
        "&amp;"@
    } else if c == '<' {
        "&lt;"@
    } else if c == '>' {
        "&gt;"@
    } else if c == '"' {
        "&quot;"@
    } else if c == '\'' {
        "&apos;"@
    } else {
        seq![c]
    }
}

/// The escape of a text: each character escaped in order.
pub open spec fn xml_escaped(s: Seq<char>) -> Seq<char>
    decreases s.len(),
{
    if s.len() == 0 {
        Seq::empty()
    } else {
        xml_escape_char(s[0]) + xml_escaped(s.drop_first())
    }
}

pub proof fn lemma_xml_escaped_push(s: Seq<char>, c: char)
    ensures
        xml_escaped(s.push(c)) == xml_escaped(s) + xml_escape_char(c),
    decreases s.len(),
{
    if s.len() == 0 {
        assert(s.push(c)[0] == c);
        assert(s.push(c).drop_first() =~= Seq::<char>::empty());
        assert(xml_escaped(s.push(c).drop_first()) =~= Seq::<char>::empty());
        assert(xml_escaped(s.push(c)) =~= xml_escaped(s) + xml_escape_char(c));
    } else {
        assert(s.push(c)[0] == s[0]);
        assert(s.push(c).drop_first() =~= s.drop_first().push(c));
        lemma_xml_escaped_push(s.drop_first(), c);
        assert(xml_escaped(s.push(c))
            == xml_escape_char(s[0]) + xml_escaped(s.drop_first().push(c)));
        assert(xml_escaped(s.push(c)) =~= xml_escaped(s) + xml_escape_char(c));
    }
}

/// Appends a text with XML escaping.
pub fn append_xml_escaped(out: &mut String, s: &str)
    ensures
        final(out)@ == old(out)@ + xml_escaped(s@),
{
    let n = s.unicode_len();
    let mut i: usize = 0;
    proof {
        assert(s@.take(0) =~= Seq::<char>::empty());
        assert(out@ =~= old(out)@ + xml_escaped(s@.take(0)));
    }
    while i < n
        invariant
            n == s@.len(),
            i <= n,
            out@ == old(out)@ + xml_escaped(s@.take(i as int)),
        decreases n - i,
    {
        let c = s.get_char(i);
        proof {
            lemma_xml_escaped_push(s@.take(i as int), c);
            assert(s@.take(i + 1) =~= s@.take(i as int).push(c));
        }
        if c == '&' {
            out.append("&amp;");
        } else if c == '<' {
            out.append("&lt;");
        } else if c == '>' {
            out.append("&gt;");
        } else if c == '"' {
            out.append("&quot;");
        } else if c == '\'' {
            out.append("&apos;");
        } else {
            push_char(out, c);
            proof {
                assert(xml_escape_char(c) =~= seq![c]);
            }
        }
        i = i + 1;
        proof {
            assert(out@ =~= old(out)@ + xml_escaped(s@.take(i as int)));
        }
    }
    proof {
        assert(s@.take(n as int) =~= s@);
    }
}

} // verus!
