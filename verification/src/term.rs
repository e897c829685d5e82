//! Textual encoding of triple terms.

use vstd::prelude::*;

verus! {

/// Why a textual encoding is not a term.
#[derive(Debug, Clone, Copy, PartialEq, Eq, Structural)]
pub enum MalformedTerm {
    /// The text is empty.
    Empty,
    /// The first character is none of `<`, `_` and `"`.
    UnknownLead,
}

/// A term as a mathematical value.
pub enum TermView {
    Iri(Seq<char>),
    BlankNode(Seq<char>),
    Literal(Seq<char>, Option<Seq<char>>, Option<Seq<char>>),
}

/// An IRI reference, a blank node identifier or a literal.
#[derive(Debug, PartialEq, Eq, Hash)]
pub enum Term {
    /// An IRI, held without angle brackets.
    Iri(String),
    /// A blank node, held with its whole textual identifier.
    BlankNode(String),
    /// A literal with its optional datatype IRI and language tag.
    Literal { value: String, datatype: Option<String>, language: Option<String> },
}

/// The characters of an optional string.
pub open spec fn opt_chars(s: Option<String>) -> Option<Seq<char>> {
    match s {
        Some(text) => Some(text@),
        None => None,
    }
}

impl View for Term {
    type V = TermView;

    open spec fn view(&self) -> TermView {
        match *self {
            Term::Iri(value) => TermView::Iri(value@),
            Term::BlankNode(id) => TermView::BlankNode(id@),
            Term::Literal { value, datatype, language } => TermView::Literal(
                value@,
                opt_chars(datatype),
                opt_chars(language),
            ),
        }
    }
}

/// A copy of an optional string.
fn clone_opt(s: &Option<String>) -> (copy: Option<String>)
    ensures
        copy == *s,
{
    match s {
        Some(text) => Some(text.clone()),
        None => None,
    }
}

impl Clone for Term {
    fn clone(&self) -> (copy: Self)
        ensures
            copy == *self,
    {
        match self {
            Term::Iri(value) => Term::Iri(value.clone()),
            Term::BlankNode(id) => Term::BlankNode(id.clone()),
            Term::Literal { value, datatype, language } => Term::Literal {
                value: value.clone(),
                datatype: clone_opt(datatype),
                language: clone_opt(language),
            },
        }
    }
}

/// A triple as a mathematical value.
pub struct TripleView {
    pub subject: TermView,
    pub predicate: TermView,
    pub object: TermView,
}

/// A (subject, predicate, object) fact.
#[derive(Debug, PartialEq, Eq, Hash)]
pub struct Triple {
    pub subject: Term,
    pub predicate: Term,
    pub object: Term,
}

impl View for Triple {
    type V = TripleView;

    open spec fn view(&self) -> TripleView {
        TripleView { subject: self.subject@, predicate: self.predicate@, object: self.object@ }
    }
}

impl Clone for Triple {
    fn clone(&self) -> (copy: Self)
        ensures
            copy == *self,
    {
        Triple {
            subject: self.subject.clone(),
            predicate: self.predicate.clone(),
            object: self.object.clone(),
        }
    }
}

/// The views of a run of triples, in order.
pub open spec fn triple_views(triples: Seq<Triple>) -> Seq<TripleView> {
    triples.map_values(|t: Triple| t@)
}

/// An angle bracket, opening or closing.
pub open spec fn is_angle(c: char) -> bool {
    c == '<' || c == '>'
}

/// `text` without any of its angle brackets.
pub open spec fn strip_angles(text: Seq<char>) -> Seq<char> {
    text.filter(|c: char| !is_angle(c))
}

/// The term that `text` encodes, chosen by its first character.
pub open spec fn parse_term(text: Seq<char>) -> Result<TermView, MalformedTerm> {
    if text.len() == 0 {
        Err(MalformedTerm::Empty)
    } else if text[0] == '<' {
        Ok(TermView::Iri(strip_angles(text)))
    } else if text[0] == '_' {
        Ok(TermView::BlankNode(text))
    } else if text[0] == '"' {
        Ok(TermView::Literal(text, None, None))
    } else {
        Err(MalformedTerm::UnknownLead)
    }
}

/// Stripping goes through a text one character at a time.
pub proof fn lemma_strip_push(text: Seq<char>, c: char)
    ensures
        strip_angles(text.push(c)) == if is_angle(c) {
            strip_angles(text)
        } else {
            strip_angles(text).push(c)
        },
{
    reveal(Seq::filter);
    assert(text.push(c).drop_last() == text);
}

/// The triple that three textual terms encode: the first term that is
/// malformed, in the order subject, predicate, object, decides the error.
pub open spec fn parse_terms(s: Seq<char>, p: Seq<char>, o: Seq<char>) -> Result<
    TripleView,
    MalformedTerm,
> {
    match parse_term(s) {
        Err(reason) => Err(reason),
        Ok(subject) => match parse_term(p) {
            Err(reason) => Err(reason),
            Ok(predicate) => match parse_term(o) {
                Err(reason) => Err(reason),
                Ok(object) => Ok(TripleView { subject, predicate, object }),
            },
        },
    }
}

/// Stripping leaves a text without angle brackets as it is.
pub proof fn lemma_strip_keeps_plain(text: Seq<char>)
    requires
        forall|i: int| 0 <= i < text.len() ==> !is_angle(#[trigger] text[i]),
    ensures
        strip_angles(text) == text,
    decreases text.len(),
{
    reveal(Seq::filter);
    if text.len() > 0 {
        lemma_strip_keeps_plain(text.drop_last());
        assert(text.drop_last().push(text.last()) == text);
    }
}

/// No angle bracket is left in a stripped text, wherever it stood.
pub proof fn lemma_strip_leaves_no_angle(text: Seq<char>)
    ensures
        forall|i: int| 0 <= i < strip_angles(text).len() ==> !is_angle(#[trigger] strip_angles(text)[i]),
        strip_angles(text).len() <= text.len(),
    decreases text.len(),
{
    reveal(Seq::filter);
    if text.len() > 0 {
        lemma_strip_leaves_no_angle(text.drop_last());
    }
}

/// Stripping is idempotent.
pub proof fn lemma_strip_idempotent(text: Seq<char>)
    ensures
        strip_angles(strip_angles(text)) == strip_angles(text),
{
    lemma_strip_leaves_no_angle(text);
    lemma_strip_keeps_plain(strip_angles(text));
}

/// Angle brackets put round a text are stripped with the rest.
pub proof fn lemma_strip_bracketed(text: Seq<char>)
    ensures
        strip_angles(seq!['<'] + text + seq!['>']) == strip_angles(text),
{
    let keep = |c: char| !is_angle(c);
    let open = seq!['<'];
    let close = seq!['>'];
    assert(strip_angles(open) == Seq::<char>::empty()) by {
        assert(open == Seq::<char>::empty().push('<'));
        lemma_strip_push(Seq::<char>::empty(), '<');
        lemma_strip_keeps_plain(Seq::<char>::empty());
    }
    assert(strip_angles(close) == Seq::<char>::empty()) by {
        assert(close == Seq::<char>::empty().push('>'));
        lemma_strip_push(Seq::<char>::empty(), '>');
        lemma_strip_keeps_plain(Seq::<char>::empty());
    }
    Seq::filter_distributes_over_add(open, text, keep);
    Seq::filter_distributes_over_add(open + text, close, keep);
    assert(Seq::<char>::empty() + strip_angles(text) + Seq::<char>::empty() == strip_angles(text));
}

/// The value of a decoded IRI holds no angle bracket, and written between
/// fresh brackets it decodes to the same IRI.
pub proof fn lemma_iri_value_is_stripped(text: Seq<char>)
    requires
        text.len() > 0,
        text[0] == '<',
    ensures
        parse_term(text) == Ok::<TermView, MalformedTerm>(TermView::Iri(strip_angles(text))),
        forall|i: int|
            0 <= i < strip_angles(text).len() ==> !is_angle(#[trigger] strip_angles(text)[i]),
        parse_term(seq!['<'] + strip_angles(text) + seq!['>']) == parse_term(text),
{
    let value = strip_angles(text);
    lemma_strip_leaves_no_angle(text);
    lemma_strip_idempotent(text);
    lemma_strip_bracketed(value);
    let again = seq!['<'] + value + seq!['>'];
    assert(again.len() > 0 && again[0] == '<');
}

/// Copies `text` without its angle brackets.
pub fn remove_angles(text: &str) -> (out: String)
    ensures
        out@ == strip_angles(text@),
{
    let mut out = String::new();
    for c in it: text.chars()
        invariant
            it.seq() == text@,
            out@ == strip_angles(text@.take(it.index())),
    {
        proof {
            assert(text@.take(it.index() + 1) == text@.take(it.index()).push(c));
            lemma_strip_push(text@.take(it.index()), c);
        }
        if c != '<' && c != '>' {
            out.push(c);
        }
    }
    proof {
        assert(text@.take(text@.len() as int) == text@);
    }
    out
}

/// Decodes one textual term.
///
/// The first character decides the kind: `<` an IRI, `_` a blank node, `"` a
/// literal. An IRI loses every angle bracket, wherever it stands; a blank node
/// keeps its whole identifier; a literal keeps its whole text and never has a
/// datatype or a language.
pub fn parse_triple_term(text: &str) -> (parsed: Result<Term, MalformedTerm>)
    ensures
        match parsed {
            Ok(term) => parse_term(text@) == Ok::<TermView, MalformedTerm>(term@),
            Err(reason) => parse_term(text@) == Err::<TermView, MalformedTerm>(reason),
        },
        parsed is Ok <==> text@.len() > 0 && (text@[0] == '<' || text@[0] == '_' || text@[0]
            == '"'),
        parsed == Err::<Term, MalformedTerm>(MalformedTerm::Empty) <==> text@.len() == 0,
        parsed matches Ok(term) ==> (term is Iri <==> text@[0] == '<') && (term is BlankNode
            <==> text@[0] == '_') && (term is Literal <==> text@[0] == '"'),
        parsed matches Ok(Term::Iri(value)) ==> forall|i: int|
            0 <= i < value@.len() ==> !is_angle(#[trigger] value@[i]),
{
    proof {
        lemma_strip_leaves_no_angle(text@);
    }
    if text.is_empty() {
        return Err(MalformedTerm::Empty);
    }
    let lead = text.get_char(0);
    if lead == '<' {
        Ok(Term::Iri(remove_angles(text)))
    } else if lead == '_' {
        Ok(Term::BlankNode(text.to_owned()))
    } else if lead == '"' {
        Ok(Term::Literal { value: text.to_owned(), datatype: None, language: None })
    } else {
        Err(MalformedTerm::UnknownLead)
    }
}

/// Decodes the three textual terms of one triple.
pub fn parse_triple(s: &str, p: &str, o: &str) -> (parsed: Result<Triple, MalformedTerm>)
    ensures
        match parsed {
            Ok(triple) => parse_terms(s@, p@, o@) == Ok::<TripleView, MalformedTerm>(triple@),
            Err(reason) => parse_terms(s@, p@, o@) == Err::<TripleView, MalformedTerm>(reason),
        },
{
    let subject = match parse_triple_term(s) {
        Ok(term) => term,
        Err(reason) => { return Err(reason); },
    };
    let predicate = match parse_triple_term(p) {
        Ok(term) => term,
        Err(reason) => { return Err(reason); },
    };
    let object = match parse_triple_term(o) {
        Ok(term) => term,
        Err(reason) => { return Err(reason); },
    };
    Ok(Triple { subject, predicate, object })
}

} // verus!
