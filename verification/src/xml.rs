//! Escaping text for XML element content, as written into a launchd plist.
//!
//! `&` becomes `&amp;`, `<` becomes `&lt;`, `>` becomes `&gt;`, `"` becomes
//! `&quot;` and `'` becomes `&apos;`; every other character is kept. Each
//! character of the input is rewritten once, so an `&` that an entity brings
//! in is never escaped a second time.

use vstd::prelude::*;
use vstd::std_specs::iter::IteratorSpec;

verus! {

pub open spec fn amp_entity() -> Seq<char> {
    seq!['&', 'a', 'm', 'p', ';']
}

pub open spec fn lt_entity() -> Seq<char> {
    seq!['&', 'l', 't', ';']
}

pub open spec fn gt_entity() -> Seq<char> {
    seq!['&', 'g', 't', ';']
}

pub open spec fn quot_entity() -> Seq<char> {
    seq!['&', 'q', 'u', 'o', 't', ';']
}

pub open spec fn apos_entity() -> Seq<char> {
    seq!['&', 'a', 'p', 'o', 's', ';']
}

/// The characters that may not stand raw in XML element text or attributes.
pub open spec fn is_xml_meta(c: char) -> bool {
    c == '&' || c == '<' || c == '>' || c == '"' || c == '\''
}

/// What one input character becomes in the escaped text.
pub open spec fn escape_char(c: char) -> Seq<char> {
    if c == '&' {
        amp_entity()
    } else if c == '<' {
        lt_entity()
    } else if c == '>' {
        gt_entity()
    } else if c == '"' {
        quot_entity()
    } else if c == '\'' {
        apos_entity()
    } else {
        seq![c]
    }
}

/// The escaped form of `s`: each character replaced by `escape_char` of it.
pub open spec fn xml_escape_spec(s: Seq<char>) -> Seq<char>
    decreases s.len(),
{
    if s.len() == 0 {
        seq![]
    } else {
        escape_char(s[0]) + xml_escape_spec(s.skip(1))
    }
}

/// Reading escaped text back: the five entities become their characters,
/// everything else is kept.
pub open spec fn xml_unescape_spec(t: Seq<char>) -> Seq<char>
    decreases t.len(),
{
    if t.len() == 0 {
        seq![]
    } else if t.len() >= 5 && t.take(5) == amp_entity() {
        seq!['&'] + xml_unescape_spec(t.skip(5))
    } else if t.len() >= 4 && t.take(4) == lt_entity() {
        seq!['<'] + xml_unescape_spec(t.skip(4))
    } else if t.len() >= 4 && t.take(4) == gt_entity() {
        seq!['>'] + xml_unescape_spec(t.skip(4))
    } else if t.len() >= 6 && t.take(6) == quot_entity() {
        seq!['"'] + xml_unescape_spec(t.skip(6))
    } else if t.len() >= 6 && t.take(6) == apos_entity() {
        seq!['\''] + xml_unescape_spec(t.skip(6))
    } else {
        seq![t[0]] + xml_unescape_spec(t.skip(1))
    }
}

/// Escaping distributes over concatenation.
pub proof fn lemma_escape_append(a: Seq<char>, b: Seq<char>)
    ensures
        xml_escape_spec(a + b) == xml_escape_spec(a) + xml_escape_spec(b),
    decreases a.len(),
{
    if a.len() == 0 {
        assert(a + b =~= b);
    } else {
        lemma_escape_append(a.skip(1), b);
        assert((a + b).skip(1) =~= a.skip(1) + b);
        assert((a + b)[0] == a[0]);
        assert(escape_char(a[0]) + (xml_escape_spec(a.skip(1)) + xml_escape_spec(b))
            =~= (escape_char(a[0]) + xml_escape_spec(a.skip(1))) + xml_escape_spec(b));
    }
}

/// Escaping `s` one character further.
proof fn lemma_escape_push(s: Seq<char>, c: char)
    ensures
        xml_escape_spec(s.push(c)) == xml_escape_spec(s) + escape_char(c),
{
    lemma_escape_append(s, seq![c]);
    assert(s.push(c) =~= s + seq![c]);
    assert(seq![c].skip(1) =~= Seq::<char>::empty());
    assert(xml_escape_spec(Seq::<char>::empty()) == Seq::<char>::empty());
    assert(xml_escape_spec(seq![c]) == escape_char(seq![c][0]) + xml_escape_spec(seq![c].skip(1)));
    assert(escape_char(c) + Seq::<char>::empty() =~= escape_char(c));
}


/// Escaped text holds none of `<`, `>`, `"` and `'`: whatever the input, it
/// cannot close or open an element, nor end an attribute value.
pub proof fn lemma_escape_has_no_markup(s: Seq<char>)
    ensures
        forall|i: int|
            0 <= i < xml_escape_spec(s).len() ==> {
                let c = #[trigger] xml_escape_spec(s)[i];
                c != '<' && c != '>' && c != '"' && c != '\''
            },
    decreases s.len(),
{
    if s.len() > 0 {
        lemma_escape_has_no_markup(s.skip(1));
        let head = escape_char(s[0]);
        let rest = xml_escape_spec(s.skip(1));
        assert forall|i: int| 0 <= i < (head + rest).len() implies {
            let c = #[trigger] (head + rest)[i];
            c != '<' && c != '>' && c != '"' && c != '\''
        } by {
            if i >= head.len() {
                assert((head + rest)[i] == rest[i - head.len()]);
            }
        }
    }
}

/// Escaping loses nothing: reading the escaped text back gives the input.
/// Because each `&` of the input becomes `&amp;` and no entity is escaped
/// again, the entities in the output stand only where a metacharacter stood.
pub proof fn lemma_unescape_escape(s: Seq<char>)
    ensures
        xml_unescape_spec(xml_escape_spec(s)) == s,
    decreases s.len(),
{
    if s.len() > 0 {
        lemma_unescape_escape(s.skip(1));
        let c = s[0];
        let rest = xml_escape_spec(s.skip(1));
        let t = escape_char(c) + rest;
        assert(xml_escape_spec(s) == t);
        let k = escape_char(c).len() as int;
        assert(t.take(k) =~= escape_char(c));
        assert(t.skip(k) =~= rest);
        if !is_xml_meta(c) {
            assert(t[0] == c);
            assert(t.len() >= 5 ==> t.take(5)[0] == c);
            assert(t.len() >= 4 ==> t.take(4)[0] == c);
            assert(t.len() >= 6 ==> t.take(6)[0] == c);
            assert(t.len() >= 5 ==> t.take(5) != amp_entity());
            assert(t.len() >= 4 ==> t.take(4) != lt_entity());
            assert(t.len() >= 4 ==> t.take(4) != gt_entity());
            assert(t.len() >= 6 ==> t.take(6) != quot_entity());
            assert(t.len() >= 6 ==> t.take(6) != apos_entity());
        } else if c == '<' {
            assert(t.len() >= 5 ==> t.take(5)[1] == 'l');
            assert(t.len() >= 5 ==> t.take(5) != amp_entity());
        } else if c == '>' {
            assert(t.len() >= 5 ==> t.take(5)[1] == 'g');
            assert(t.len() >= 5 ==> t.take(5) != amp_entity());
            assert(t.take(4) != lt_entity());
        } else if c == '"' {
            assert(t.take(5)[1] == 'q');
            assert(t.take(5) != amp_entity());
            assert(t.take(4)[1] == 'q');
            assert(t.take(4) != lt_entity());
            assert(t.take(4) != gt_entity());
        } else if c == '\'' {
            assert(t.take(5)[1] == 'a' && t.take(5)[2] == 'p');
            assert(t.take(5) != amp_entity());
            assert(t.take(4)[1] == 'a');
            assert(t.take(4) != lt_entity());
            assert(t.take(4) != gt_entity());
            assert(t.take(6)[1] == 'a');
            assert(t.take(6) != quot_entity());
        }
        assert(seq![c] + s.skip(1) =~= s);
    }
}

/// Text without metacharacters is left exactly as it is.
pub proof fn lemma_escape_plain_is_identity(s: Seq<char>)
    requires
        forall|i: int| 0 <= i < s.len() ==> !is_xml_meta(#[trigger] s[i]),
    ensures
        xml_escape_spec(s) == s,
    decreases s.len(),
{
    if s.len() > 0 {
        assert forall|i: int| 0 <= i < s.skip(1).len() implies !is_xml_meta(
            #[trigger] s.skip(1)[i],
        ) by {
            assert(s.skip(1)[i] == s[i + 1]);
        }
        lemma_escape_plain_is_identity(s.skip(1));
        assert(!is_xml_meta(s[0]));
        assert(seq![s[0]] + s.skip(1) =~= s);
    }
}


/// `p` stands in `s` at position `i`.
pub open spec fn occurs_at(s: Seq<char>, p: Seq<char>, i: int) -> bool {
    0 <= i && i + p.len() <= s.len() && s.subrange(i, i + p.len()) == p
}

/// `p` stands somewhere in `s`.
pub open spec fn contains_text(s: Seq<char>, p: Seq<char>) -> bool {
    exists|i: int| occurs_at(s, p, i)
}

/// The characters that occur in the five entities.
pub open spec fn is_entity_char(c: char) -> bool {
    c == '&' || c == 'a' || c == 'm' || c == 'p' || c == ';' || c == 'l' || c == 't' || c == 'g'
        || c == 'q' || c == 'u' || c == 'o' || c == 's'
}

/// Text without `&` that begins the escaped form of `s` also begins `s`.
proof fn lemma_escape_prefix(s: Seq<char>, q: Seq<char>)
    requires
        forall|j: int| 0 <= j < q.len() ==> #[trigger] q[j] != '&',
        q.len() <= xml_escape_spec(s).len(),
        xml_escape_spec(s).take(q.len() as int) == q,
    ensures
        q.len() <= s.len(),
        s.take(q.len() as int) == q,
    decreases q.len(),
{
    if q.len() > 0 {
        assert(xml_escape_spec(s).len() > 0);
        let c = s[0];
        let rest = xml_escape_spec(s.skip(1));
        assert(xml_escape_spec(s) == escape_char(c) + rest);
        assert(xml_escape_spec(s)[0] == xml_escape_spec(s).take(q.len() as int)[0]);
        assert(q[0] != '&');
        assert(!is_xml_meta(c));
        assert(q[0] == c);
        let q1 = q.skip(1);
        assert forall|j: int| 0 <= j < q1.len() implies #[trigger] q1[j] != '&' by {
            assert(q1[j] == q[j + 1]);
        }
        assert(rest.take(q1.len() as int) =~= q1) by {
            assert forall|j: int| 0 <= j < q1.len() implies rest.take(q1.len() as int)[j]
                == q1[j] by {
                assert(rest[j] == xml_escape_spec(s)[j + 1]);
                assert(xml_escape_spec(s).take(q.len() as int)[j + 1] == q[j + 1]);
            }
        }
        lemma_escape_prefix(s.skip(1), q1);
        assert(s.take(q.len() as int) =~= seq![c] + s.skip(1).take(q1.len() as int));
        assert(q =~= seq![q[0]] + q1);
    }
}

/// Text without `&` whose first character occurs in no entity stands in the
/// escaped form of `s` only where it stands in `s` itself: escaping never
/// assembles such text out of entities.
pub proof fn lemma_escape_adds_no_text(s: Seq<char>, q: Seq<char>, i: int)
    requires
        q.len() > 0,
        !is_entity_char(q[0]),
        forall|j: int| 0 <= j < q.len() ==> #[trigger] q[j] != '&',
        occurs_at(xml_escape_spec(s), q, i),
    ensures
        contains_text(s, q),
    decreases s.len(),
{
    let e = xml_escape_spec(s);
    assert(e.len() > 0);
    let c = s[0];
    let head = escape_char(c);
    let rest = xml_escape_spec(s.skip(1));
    assert(e == head + rest);
    let k = head.len() as int;
    assert(e[i] == q[0]) by {
        assert(e.subrange(i, i + q.len())[0] == e[i]);
    }
    if i >= k {
        assert(occurs_at(rest, q, i - k)) by {
            assert(rest.subrange(i - k, i - k + q.len()) =~= e.subrange(i, i + q.len()));
        }
        lemma_escape_adds_no_text(s.skip(1), q, i - k);
        let j = choose|j: int| occurs_at(s.skip(1), q, j);
        assert(s.subrange(j + 1, j + 1 + q.len()) =~= s.skip(1).subrange(j, j + q.len()));
        assert(occurs_at(s, q, j + 1));
    } else {
        assert(e[i] == head[i]);
        assert(!is_xml_meta(c));
        assert(i == 0);
        assert(q[0] == c);
        let q1 = q.skip(1);
        assert forall|j: int| 0 <= j < q1.len() implies #[trigger] q1[j] != '&' by {
            assert(q1[j] == q[j + 1]);
        }
        assert(rest.take(q1.len() as int) =~= q1) by {
            assert forall|j: int| 0 <= j < q1.len() implies rest.take(q1.len() as int)[j]
                == q1[j] by {
                assert(rest[j] == e[j + 1]);
                assert(e.subrange(0, q.len() as int)[j + 1] == q[j + 1]);
            }
        }
        lemma_escape_prefix(s.skip(1), q1);
        assert(s.subrange(0, q.len() as int) =~= q) by {
            assert forall|j: int| 0 <= j < q.len() implies s.subrange(0, q.len() as int)[j]
                == q[j] by {
                if j > 0 {
                    assert(s.skip(1).take(q1.len() as int)[j - 1] == q1[j - 1]);
                }
            }
        }
        assert(occurs_at(s, q, 0));
    }
}

/// Returns `s` with `&`, `<`, `>`, `"` and `'` replaced by their XML entities.
pub fn xml_escape(s: &str) -> (res: String)
    ensures
        res@ == xml_escape_spec(s@),
{
    let mut out = String::new();
    proof {
        broadcast use vstd::string::group_string_axioms;
    }
    for c in it: s.chars()
        invariant
            it.seq() == s@,
            out@ == xml_escape_spec(s@.take(it.index() as int)),
            it.index() == s@.len() ==> s@.take(it.index() as int) == s@,
    {
        proof {
            lemma_escape_push(s@.take(it.index() as int), c);
            assert(s@.take(it.index() + 1) =~= s@.take(it.index() as int).push(c));
            reveal_strlit("&amp;");
            reveal_strlit("&lt;");
            reveal_strlit("&gt;");
            reveal_strlit("&quot;");
            reveal_strlit("&apos;");
            assert("&amp;"@ =~= amp_entity());
            assert("&lt;"@ =~= lt_entity());
            assert("&gt;"@ =~= gt_entity());
            assert("&quot;"@ =~= quot_entity());
            assert("&apos;"@ =~= apos_entity());
            if it.index() + 1 == s@.len() {
                assert(s@.take(it.index() + 1) =~= s@);
            }
        }
        if c == '&' {
            out.push_str("&amp;");
        } else if c == '<' {
            out.push_str("&lt;");
        } else if c == '>' {
            out.push_str("&gt;");
        } else if c == '"' {
            out.push_str("&quot;");
        } else if c == '\'' {
            out.push_str("&apos;");
        } else {
            out.push(c);
        }
    }
    out
}

} // verus!
