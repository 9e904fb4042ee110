//! The library's side of a second opinion from a language model: the
//! question that is put to it, and what its answer means.
//!
//! The model may only confirm or remove what the keywords found: a kind
//! that it names and the keywords did not find is passed over. Whatever goes
//! wrong on the way, the keyword verdict stands.

use vstd::prelude::*;
use vstd::slice::slice_to_vec;
use crate::classifier::has_kind;
use crate::location::Proximity;
use crate::text::lowercase;
use crate::threat_kind::ThreatKind;

verus! {

/// The longest part of a message that is quoted in the question, in
/// characters.
pub const MAX_PROMPT_CHARS: usize = 800;

/// The interchange names of `threats`, joined by ", ".
pub open spec fn names_line(threats: Seq<ThreatKind>) -> Seq<char>
    decreases threats.len(),
{
    if threats.len() == 0 {
        Seq::empty()
    } else if threats.len() == 1 {
        threats[0].name_text()
    } else {
        names_line(threats.drop_last()) + ", "@ + threats.last().name_text()
    }
}

/// The name of a level in the question.
pub open spec fn proximity_name(proximity: Proximity) -> Seq<char> {
    match proximity {
        Proximity::District => "District"@,
        Proximity::City => "City"@,
        Proximity::Oblast => "Oblast"@,
        Proximity::Unmatched => "None"@,
    }
}

/// How a flag is written in the question.
pub open spec fn flag_text(flag: bool) -> Seq<char> {
    if flag {
        "true"@
    } else {
        "false"@
    }
}

/// The first [`MAX_PROMPT_CHARS`] characters of the message.
pub open spec fn excerpt(text: Seq<char>) -> Seq<char> {
    if text.len() > MAX_PROMPT_CHARS {
        text.subrange(0, MAX_PROMPT_CHARS as int)
    } else {
        text
    }
}

/// The question for one message: the message, what the keywords found, the
/// level and the nationwide flag.
pub open spec fn user_prompt(
    text: Seq<char>,
    threats: Seq<ThreatKind>,
    proximity: Proximity,
    nationwide: bool,
) -> Seq<char> {
    "Message from channel:\n```\n"@ + excerpt(text) + "\n```\nKeyword filter detected: ["@
        + names_line(threats) + "]\nProximity: "@ + proximity_name(proximity) + "\nNationwide: "@
        + flag_text(nationwide) + "\n\nClassify:"@
}

/// The names of an answer as sequences of characters.
pub open spec fn name_texts(names: Seq<String>) -> Seq<Seq<char>> {
    Seq::new(names.len(), |i: int| names[i]@)
}

/// The kinds that the names of an answer stand for, in order; a name that
/// stands for no kind is passed over.
pub open spec fn parsed_names(names: Seq<Seq<char>>) -> Seq<ThreatKind>
    decreases names.len(),
{
    if names.len() == 0 {
        Seq::empty()
    } else {
        match ThreatKind::named(lowercase(names.last())) {
            Some(k) => parsed_names(names.drop_last()).push(k),
            None => parsed_names(names.drop_last()),
        }
    }
}

/// The test for a kind that the keywords found.
pub open spec fn found_in(keyword_threats: Seq<ThreatKind>) -> spec_fn(ThreatKind) -> bool {
    |k: ThreatKind| keyword_threats.contains(k)
}

/// The kinds that an answer confirms: those that it names and that the
/// keywords found, in the order of the answer.
pub open spec fn confirmed(keyword_threats: Seq<ThreatKind>, names: Seq<Seq<char>>) -> Seq<
    ThreatKind,
> {
    parsed_names(names).filter(found_in(keyword_threats))
}

/// What an answer means. No answer: the keyword verdict stands. An answer
/// without names: no active alert. An answer with names that confirms
/// nothing, because its names stand for no kind or for kinds that the
/// keywords did not find: the keyword verdict stands. Else the kinds that
/// the answer confirms.
pub open spec fn verdict(keyword_threats: Seq<ThreatKind>, answer: Option<Seq<Seq<char>>>) -> Seq<
    ThreatKind,
> {
    match answer {
        None => keyword_threats,
        Some(names) => if names.len() == 0 {
            Seq::empty()
        } else if confirmed(keyword_threats, names).len() == 0 {
            keyword_threats
        } else {
            confirmed(keyword_threats, names)
        },
    }
}

/// A second opinion only narrows: every kind of the verdict is one that the
/// keywords found.
pub proof fn lemma_verdict_narrows(keyword_threats: Seq<ThreatKind>, answer: Option<Seq<Seq<char>>>)
    ensures
        forall|i: int|
            0 <= i < verdict(keyword_threats, answer).len() ==> keyword_threats.contains(
                #[trigger] verdict(keyword_threats, answer)[i],
            ),
{
    let kinds = verdict(keyword_threats, answer);
    assert forall|i: int| 0 <= i < kinds.len() implies keyword_threats.contains(
        #[trigger] kinds[i],
    ) by {
        match answer {
            Some(names) => {
                if confirmed(keyword_threats, names).len() > 0 {
                    parsed_names(names).lemma_filter_pred(found_in(keyword_threats), i);
                }
            },
            None => {},
        }
    }
}

/// The names of an answer, if there is one.
pub open spec fn answer_of(answer: Option<&Vec<String>>) -> Option<Seq<Seq<char>>> {
    match answer {
        Some(names) => Some(name_texts(names@)),
        None => None,
    }
}

/// The interchange names of `threats`, joined by ", ".
pub fn join_names(threats: &[ThreatKind]) -> (line: String)
    ensures
        line@ == names_line(threats@),
{
    let mut line = String::new();
    let mut i: usize = 0;
    while i < threats.len()
        invariant
            i <= threats.len(),
            line@ == names_line(threats@.take(i as int)),
        decreases threats.len() - i,
    {
        proof {
            assert(threats@.take(i + 1).drop_last() =~= threats@.take(i as int));
        }
        if i > 0 {
            line.append(", ");
        }
        line.append(threats[i].variant_name());
        i += 1;
    }
    proof {
        assert(threats@.take(threats@.len() as int) =~= threats@);
    }
    line
}

/// The question for one message, see [`user_prompt`].
pub fn build_user_prompt(
    text: &str,
    keyword_threats: &[ThreatKind],
    proximity: Proximity,
    nationwide: bool,
) -> (prompt: String)
    ensures
        prompt@ == user_prompt(text@, keyword_threats@, proximity, nationwide),
{
    let names = join_names(keyword_threats);
    let shown = if text.unicode_len() > MAX_PROMPT_CHARS {
        text.substring_char(0, MAX_PROMPT_CHARS)
    } else {
        text
    };
    let level = match proximity {
        Proximity::District => "District",
        Proximity::City => "City",
        Proximity::Oblast => "Oblast",
        Proximity::Unmatched => "None",
    };
    let flag = if nationwide {
        "true"
    } else {
        "false"
    };
    let mut prompt = String::from_str("Message from channel:\n```\n");
    prompt.append(shown);
    prompt.append("\n```\nKeyword filter detected: [");
    prompt.append(names.as_str());
    prompt.append("]\nProximity: ");
    prompt.append(level);
    prompt.append("\nNationwide: ");
    prompt.append(flag);
    prompt.append("\n\nClassify:");
    prompt
}

/// The kinds that the names of an answer stand for, see [`parsed_names`].
pub fn parse_names(names: &Vec<String>) -> (kinds: Vec<ThreatKind>)
    ensures
        kinds@ == parsed_names(name_texts(names@)),
{
    let ghost texts = name_texts(names@);
    let mut kinds: Vec<ThreatKind> = Vec::new();
    let mut i: usize = 0;
    while i < names.len()
        invariant
            i <= names.len(),
            texts == name_texts(names@),
            kinds@ == parsed_names(texts.take(i as int)),
        decreases names.len() - i,
    {
        proof {
            assert(texts.take(i + 1).drop_last() =~= texts.take(i as int));
        }
        match ThreatKind::from_variant_name(names[i].as_str()) {
            Some(k) => {
                kinds.push(k);
            },
            None => {},
        }
        i += 1;
    }
    proof {
        assert(texts.take(texts.len() as int) =~= texts);
    }
    kinds
}

/// The kinds of `named` that the keywords found, in order.
pub fn keep_found(named: &[ThreatKind], keyword_threats: &[ThreatKind]) -> (kinds: Vec<ThreatKind>)
    ensures
        kinds@ == named@.filter(found_in(keyword_threats@)),
{
    let mut kinds: Vec<ThreatKind> = Vec::new();
    let mut i: usize = 0;
    proof {
        reveal(Seq::filter);
    }
    while i < named.len()
        invariant
            i <= named.len(),
            kinds@ == named@.take(i as int).filter(found_in(keyword_threats@)),
        decreases named.len() - i,
    {
        let kind = named[i];
        proof {
            assert(named@.take(i + 1) =~= named@.take(i as int).push(kind));
            Seq::lemma_filter_push(named@.take(i as int), kind, found_in(keyword_threats@));
        }
        if has_kind(keyword_threats, kind) {
            kinds.push(kind);
        }
        i += 1;
    }
    proof {
        assert(named@.take(named@.len() as int) =~= named@);
    }
    kinds
}

/// What an answer means, see [`verdict`]. `answer` is `None` where no
/// usable answer came back. The result holds only kinds of
/// `keyword_threats`.
pub fn interpret_verdict(keyword_threats: &[ThreatKind], answer: Option<&Vec<String>>) -> (kinds:
    Vec<ThreatKind>)
    ensures
        kinds@ == verdict(keyword_threats@, answer_of(answer)),
        forall|i: int| 0 <= i < kinds@.len() ==> keyword_threats@.contains(#[trigger] kinds@[i]),
{
    proof {
        lemma_verdict_narrows(keyword_threats@, answer_of(answer));
    }
    match answer {
        None => slice_to_vec(keyword_threats),
        Some(names) => {
            if names.len() == 0 {
                return Vec::new();
            }
            let named = parse_names(names);
            let kinds = keep_found(named.as_slice(), keyword_threats);
            if kinds.len() == 0 {
                slice_to_vec(keyword_threats)
            } else {
                kinds
            }
        },
    }
}

} // verus!
