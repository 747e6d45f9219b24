//! Laws that relate several parsers to one another.

use crate::parse::chars::{
    alphabetic, alphanumeric, in_class, lemma_run_len, lemma_run_len_is, white_space, CharClass,
};
use crate::parse::outcome::{Outcome, Parse};
use crate::parse::punctuated::{at_least_one, punctuated_more, punctuated_spec};
use crate::parse::render::{list_text, Render};
use crate::parse::span::{ident_len, lemma_ident_sound, Ident, IdentModel};
use crate::parse::stream::StreamState;
use crate::span::Span;
use crate::parse::tokens::{
    first_token_from, lemma_first_token, lemma_punct_consumes, lemma_punct_token_chars,
    lemma_punct_tokens, punct_spec, punct_tokens,
};
use vstd::prelude::*;

verus! {

broadcast use {
    crate::parse::stream::lemma_precedes_chain,
    crate::parse::stream::lemma_precedes_self,
};

/// Depth is monotonic: along any sequence of states of one stream, each of
/// which comes after the one before it, the depth never goes down.
pub proof fn lemma_depth_monotonic(states: Seq<StreamState>)
    requires
        forall|i: int| 0 <= i < states.len() - 1 ==> (#[trigger] states[i]).precedes(states[i + 1]),
    ensures
        forall|i: int, j: int|
            0 <= i <= j < states.len() ==> (#[trigger] states[i]).depth <= (#[trigger] states[j]).depth,
    decreases states.len(),
{
    if states.len() > 1 {
        let front = states.drop_last();
        assert forall|i: int| 0 <= i < front.len() - 1 implies (#[trigger] front[i]).precedes(
            front[i + 1],
        ) by {
            assert(states[i].precedes(states[i + 1]));
        }
        lemma_depth_monotonic(front);
        let last = states.len() - 1;
        assert(states[last - 1].precedes(states[last]));
        assert forall|i: int, j: int| 0 <= i <= j < states.len() implies (#[trigger] states[i]).depth
            <= (#[trigger] states[j]).depth by {
            if j < last {
                assert(front[i].depth <= front[j].depth);
            } else if i < last {
                assert(front[i].depth <= front[last - 1].depth);
            }
        }
    }
}

/// The boundary of an empty sequence: where not even one value can be
/// read, a punctuated sequence that may be empty is read as the empty
/// sequence and leaves the stream as it was, and one that may not fails
/// as that value did, but expecting `at least one` of it.
pub proof fn lemma_zero_allowed_boundary<T: Parse>(pre: StreamState, separator: char)
    requires
        T::parse_spec(pre) is Failed,
    ensures
        punctuated_spec::<T>(pre, separator, true) == (Outcome::Parsed {
            value: Seq::<T::V>::empty(),
            rest: pre,
        }),
        punctuated_spec::<T>(pre, separator, false) == Outcome::<Seq<T::V>>::Failed(
            T::parse_spec(pre)->Failed_0.expecting(
                at_least_one(T::parse_spec(pre)->Failed_0.expected),
            ),
        ),
{
}

/// The boundary on empty input, for names: from a text in which nothing is
/// left, a sequence of names that may be empty is read as the empty
/// sequence, and one that may not fails at the end of the input, expecting
/// `at least one ident`.
pub proof fn lemma_zero_allowed_on_empty_input(pre: StreamState, separator: char)
    requires
        pre.wf(),
        pre.code.len() == 0,
    ensures
        punctuated_spec::<Ident>(pre, separator, true) == (Outcome::Parsed {
            value: Seq::<IdentModel>::empty(),
            rest: pre,
        }),
        punctuated_spec::<Ident>(pre, separator, false) matches Outcome::Failed(failure)
            && failure.expected == at_least_one("ident"@) && failure.span == Span::eof(),
{
    lemma_run_len(pre.code, CharClass::Whitespace);
    pre.lemma_advance_zero();
}

/// Whether `text` reads as one name: a letter that is not blank, and
/// letters and numerals after it.
pub open spec fn is_name(text: Seq<char>) -> bool {
    &&& text.len() > 0
    &&& alphabetic(text[0])
    &&& !white_space(text[0])
    &&& forall|i: int| 1 <= i < text.len() ==> alphanumeric(#[trigger] text[i])
}

/// The names of `idents`.
pub open spec fn names_of(idents: Seq<IdentModel>) -> Seq<Seq<char>> {
    idents.map_values(|ident: IdentModel| ident.name)
}

/// Whether `separator` alone is a punctuation token.
pub open spec fn is_separator(separator: char) -> bool {
    exists|i: int| 0 <= i < punct_tokens().len() && #[trigger] punct_tokens()[i] == seq![separator]
}

/// A separator is neither blank nor a letter or numeral.
pub proof fn lemma_separator_class(separator: char)
    requires
        is_separator(separator),
    ensures
        !white_space(separator),
        !alphanumeric(separator),
{
    lemma_punct_tokens();
    lemma_punct_token_chars();
    let i = choose|i: int| 0 <= i < punct_tokens().len() && #[trigger] punct_tokens()[i] == seq![
        separator,
    ];
    assert(punct_tokens()[i][0] == separator);
}

/// A name that was read is a name.
pub proof fn lemma_parsed_name(pre: StreamState)
    requires
        pre.wf(),
    ensures
        Ident::parse_spec(pre) matches Outcome::Parsed { value, .. } ==> is_name(value.name),
{
    pre.lemma_trimmed();
    let at = pre.trimmed();
    if at.code.len() > 0 && alphabetic(at.code[0]) {
        let tail = at.code.skip(1);
        lemma_run_len(tail, CharClass::Alphanumeric);
        let name = at.code.take(ident_len(at.code) as int);
        assert forall|i: int| 1 <= i < name.len() implies alphanumeric(#[trigger] name[i]) by {
            assert(name[i] == tail[i - 1]);
            assert(in_class(tail[i - 1], CharClass::Alphanumeric));
        }
    }
}

/// A separator that was read is a separator.
pub proof fn lemma_parsed_separator(pre: StreamState, separator: char)
    requires
        pre.wf(),
    ensures
        punct_spec(pre, seq![separator]) is Parsed ==> is_separator(separator),
{
    pre.lemma_trimmed();
    lemma_punct_tokens();
    let at = pre.trimmed();
    lemma_first_token(at.code, 0);
    if let Some(i) = first_token_from(at.code, 0) {
        if punct_tokens()[i as int] == seq![separator] {
            assert(punct_tokens()[i as int][0] == at.code.subrange(0, 1)[0]);
            assert(seq![separator][0] == separator);
        }
    }
}

/// The values that follow the first of a sequence that was read are names,
/// and if there are any, the separator is a separator.
pub proof fn lemma_parsed_more(after: StreamState, separator: char)
    requires
        after.wf(),
    ensures
        forall|i: int|
            0 <= i < punctuated_more::<Ident>(after, separator).0.len() ==> is_name(
                (#[trigger] punctuated_more::<Ident>(after, separator).0[i]).name,
            ),
        punctuated_more::<Ident>(after, separator).0.len() > 0 ==> is_separator(separator),
    decreases after.code.len(),
{
    lemma_punct_consumes(after, seq![separator]);
    lemma_parsed_separator(after, separator);
    if let Outcome::Parsed { rest: at, .. } = punct_spec(after, seq![separator]) {
        lemma_ident_sound(at);
        lemma_parsed_name(at);
        if let Outcome::Parsed { value, rest } = Ident::parse_spec(at) {
            lemma_parsed_more(rest, separator);
            let more = punctuated_more::<Ident>(rest, separator).0;
            let all = punctuated_more::<Ident>(after, separator).0;
            assert(all == seq![value] + more);
            assert forall|i: int| 0 <= i < all.len() implies is_name((#[trigger] all[i]).name) by {
                if i > 0 {
                    assert(all[i] == more[i - 1]);
                }
            }
        }
    }
}

/// The text of `models` where each value stands behind the separator and a
/// blank: what is left of a written sequence once its first value is read.
pub open spec fn more_text<T: Render>(models: Seq<T::V>, separator: char) -> Seq<char>
    decreases models.len(),
{
    if models.len() == 0 {
        Seq::empty()
    } else {
        seq![separator] + " "@ + T::rendered(models[0]) + more_text::<T>(models.skip(1), separator)
    }
}

/// One value more at the end is one piece more at the end of the text.
pub proof fn lemma_more_text_push<T: Render>(models: Seq<T::V>, last: T::V, separator: char)
    ensures
        more_text::<T>(models.push(last), separator) == more_text::<T>(models, separator) + seq![
            separator,
        ] + " "@ + T::rendered(last),
    decreases models.len(),
{
    let all = models.push(last);
    if models.len() == 0 {
        assert(all.skip(1) =~= Seq::<T::V>::empty());
        assert(more_text::<T>(all.skip(1), separator) =~= Seq::<char>::empty());
        assert(more_text::<T>(models, separator) =~= Seq::<char>::empty());
        assert(all[0] == last);
        assert(more_text::<T>(all, separator) =~= more_text::<T>(models, separator) + seq![
            separator,
        ] + " "@ + T::rendered(last));
    } else {
        assert(all.skip(1) =~= models.skip(1).push(last));
        lemma_more_text_push::<T>(models.skip(1), last, separator);
        assert(more_text::<T>(all, separator) =~= more_text::<T>(models, separator) + seq![
            separator,
        ] + " "@ + T::rendered(last));
    }
}

/// A written sequence is its first value and the text of the others.
pub proof fn lemma_list_text_split<T: Render>(models: Seq<T::V>, separator: char)
    requires
        models.len() > 0,
    ensures
        list_text::<T>(models, separator) == T::rendered(models[0]) + more_text::<T>(
            models.skip(1),
            separator,
        ),
    decreases models.len(),
{
    if models.len() == 1 {
        assert(models.skip(1) =~= Seq::<T::V>::empty());
        assert(T::rendered(models[0]) + Seq::<char>::empty() =~= T::rendered(models[0]));
    } else {
        let front = models.drop_last();
        lemma_list_text_split::<T>(front, separator);
        lemma_more_text_push::<T>(front.skip(1), models.last(), separator);
        assert(front.skip(1).push(models.last()) =~= models.skip(1));
        assert(list_text::<T>(models, separator) =~= T::rendered(models[0]) + more_text::<T>(
            models.skip(1),
            separator,
        ));
    }
}

/// A separator at the head of a text, with a blank or nothing behind it,
/// is read as itself, and what is behind it is left.
pub proof fn lemma_reparse_separator(pre: StreamState, separator: char, tail: Seq<char>)
    requires
        pre.wf(),
        is_separator(separator),
        pre.code == seq![separator] + tail,
        tail.len() > 0 ==> tail[0] == ' ',
    ensures
        punct_spec(pre, seq![separator]) matches Outcome::Parsed { rest, .. } && rest.code == tail
            && rest.wf(),
{
    let code = pre.code;
    assert(code[0] == separator);
    lemma_separator_class(separator);
    lemma_run_len_is(code, CharClass::Whitespace, 0);
    pre.lemma_advance_zero();
    lemma_punct_tokens();
    lemma_first_token(code, 0);
    let j = choose|j: int| 0 <= j < punct_tokens().len() && #[trigger] punct_tokens()[j] == seq![
        separator,
    ];
    assert(code.subrange(0, 1) =~= seq![separator]);
    assert(punct_tokens()[j].is_prefix_of(code));
    let i = first_token_from(code, 0)->Some_0 as int;
    let token = punct_tokens()[i];
    assert(token.is_prefix_of(code));
    if token.len() == 2 {
        assert(token[1] == code.subrange(0, 2)[1]);
        assert(code[1] == tail[0]);
    }
    assert(token[0] == code.subrange(0, token.len() as int)[0]);
    assert(token =~= seq![separator]);
    assert(code.skip(1) =~= tail);
    pre.lemma_advance(1);
}

/// Nothing is read as a separator where nothing is left.
pub proof fn lemma_no_separator_at_end(pre: StreamState, separator: char)
    requires
        pre.wf(),
        pre.code.len() == 0,
    ensures
        punct_spec(pre, seq![separator]) is Failed,
{
    lemma_run_len(pre.code, CharClass::Whitespace);
    pre.lemma_advance_zero();
    lemma_punct_tokens();
    lemma_first_token(pre.code, 0);
}

/// Whether `code` is `blanks`, then `text`, then `tail`.
pub open spec fn stands_in(code: Seq<char>, blanks: Seq<char>, text: Seq<char>, tail: Seq<char>) -> bool {
    code == blanks + text + tail
}

/// Whether the value `model` is read back from its own text: wherever the
/// text stands, behind nothing or one blank, with nothing or the separator
/// behind it, a value is read that is the `same` as `model`, and what is
/// behind the text is left.
pub open spec fn rereads<T: Parse + Render>(
    model: T::V,
    separator: char,
    same: spec_fn(T::V, T::V) -> bool,
) -> bool {
    forall|pre: StreamState, blanks: Seq<char>, tail: Seq<char>|
        pre.wf() && #[trigger] stands_in(pre.code, blanks, T::rendered(model), tail) && (blanks.len()
            == 0 || blanks == " "@) && (tail.len() > 0 ==> tail[0] == separator) ==> (T::parse_spec(
            pre,
        ) matches Outcome::Parsed { value, rest } && same(value, model) && rest.code == tail
            && rest.wf())
}

/// Whether the values of `reread` are, one by one, the `same` as those of
/// `models`.
pub open spec fn all_same<M>(reread: Seq<M>, models: Seq<M>, same: spec_fn(M, M) -> bool) -> bool {
    &&& reread.len() == models.len()
    &&& forall|i: int| 0 <= i < models.len() ==> same(#[trigger] reread[i], models[i])
}

/// What is left of a written sequence behind its first value is read back
/// to the end, value by value.
pub proof fn lemma_reparse_more<T: Parse + Render>(
    pre: StreamState,
    models: Seq<T::V>,
    separator: char,
    same: spec_fn(T::V, T::V) -> bool,
)
    requires
        pre.wf(),
        forall|i: int| 0 <= i < models.len() ==> rereads::<T>(#[trigger] models[i], separator, same),
        models.len() > 0 ==> is_separator(separator),
        pre.code == more_text::<T>(models, separator),
    ensures
        punctuated_more::<T>(pre, separator).1.code.len() == 0,
        all_same(punctuated_more::<T>(pre, separator).0, models, same),
    decreases models.len(),
{
    if models.len() == 0 {
        lemma_no_separator_at_end(pre, separator);
    } else {
        let text = T::rendered(models[0]);
        let others = models.skip(1);
        let behind = more_text::<T>(others, separator);
        let tail = " "@ + text + behind;
        reveal_strlit(" ");
        assert(pre.code =~= seq![separator] + tail);
        assert(tail[0] == ' ');
        lemma_reparse_separator(pre, separator, tail);
        let at = punct_spec(pre, seq![separator])->Parsed_rest;
        if others.len() > 0 {
            assert(behind[0] == separator);
        }
        assert(rereads::<T>(models[0], separator, same));
        assert(stands_in(at.code, " "@, text, behind));
        let value = T::parse_spec(at)->Parsed_value;
        let rest = T::parse_spec(at)->Parsed_rest;
        assert forall|i: int| 0 <= i < others.len() implies rereads::<T>(
            #[trigger] others[i],
            separator,
            same,
        ) by {
            assert(others[i] == models[i + 1]);
        }
        lemma_reparse_more::<T>(rest, others, separator, same);
        let more = punctuated_more::<T>(rest, separator).0;
        lemma_punct_consumes(pre, seq![separator]);
        T::lemma_parse_spec(at);
        let all = punctuated_more::<T>(pre, separator).0;
        assert(all == seq![value] + more);
        assert forall|i: int| 0 <= i < models.len() implies same(#[trigger] all[i], models[i]) by {
            if i > 0 {
                assert(all[i] == more[i - 1]);
                assert(models[i] == others[i - 1]);
            }
        }
    }
}

/// The round trip of a punctuated sequence. Take values of which each is
/// read back from its own text. Written with the separator and a blank
/// between each two of them, they are read back as a sequence of values
/// that are the same, one by one, and nothing is left of the text.
pub proof fn lemma_round_trip<T: Parse + Render>(
    models: Seq<T::V>,
    separator: char,
    again: StreamState,
    same: spec_fn(T::V, T::V) -> bool,
)
    requires
        models.len() > 0,
        again.wf(),
        forall|i: int| 0 <= i < models.len() ==> rereads::<T>(#[trigger] models[i], separator, same),
        models.len() > 1 ==> is_separator(separator),
        again.code == list_text::<T>(models, separator),
    ensures
        punctuated_spec::<T>(again, separator, false) matches Outcome::Parsed { value, rest }
            && rest.code.len() == 0 && all_same(value, models, same),
{
    let others = models.skip(1);
    let behind = more_text::<T>(others, separator);
    lemma_list_text_split::<T>(models, separator);
    if others.len() > 0 {
        assert(behind[0] == separator);
    }
    assert(rereads::<T>(models[0], separator, same));
    assert(again.code =~= Seq::<char>::empty() + T::rendered(models[0]) + behind);
    assert(stands_in(again.code, Seq::<char>::empty(), T::rendered(models[0]), behind));
    let value = T::parse_spec(again)->Parsed_value;
    let rest = T::parse_spec(again)->Parsed_rest;
    assert forall|i: int| 0 <= i < others.len() implies rereads::<T>(
        #[trigger] others[i],
        separator,
        same,
    ) by {
        assert(others[i] == models[i + 1]);
    }
    lemma_reparse_more::<T>(rest, others, separator, same);
    let more = punctuated_more::<T>(rest, separator).0;
    let all = punctuated_spec::<T>(again, separator, false)->Parsed_value;
    assert(all == seq![value] + more);
    assert forall|i: int| 0 <= i < models.len() implies same(#[trigger] all[i], models[i]) by {
        if i > 0 {
            assert(all[i] == more[i - 1]);
            assert(models[i] == others[i - 1]);
        }
    }
}

/// A name that stands in a text behind blanks, with nothing behind it that
/// could go on with it, is read as that name, and what is behind it is
/// left.
pub proof fn lemma_reparse_name(pre: StreamState, lead: Seq<char>, name: Seq<char>, tail: Seq<char>)
    requires
        pre.wf(),
        pre.code == lead + name + tail,
        forall|i: int| 0 <= i < lead.len() ==> white_space(#[trigger] lead[i]),
        is_name(name),
        tail.len() > 0 ==> !alphanumeric(tail[0]),
    ensures
        Ident::parse_spec(pre) matches Outcome::Parsed { value, rest } && value.name == name
            && rest.code == tail && rest.wf(),
{
    let code = pre.code;
    assert forall|i: int| 0 <= i < lead.len() implies in_class(
        #[trigger] code[i],
        CharClass::Whitespace,
    ) by {
        assert(code[i] == lead[i]);
    }
    assert(code[lead.len() as int] == name[0]);
    lemma_run_len_is(code, CharClass::Whitespace, lead.len());
    pre.lemma_trimmed();
    let at = pre.trimmed();
    assert(at.code =~= name + tail);
    assert(at.code[0] == name[0]);
    let rest_of_name = at.code.skip(1);
    assert forall|i: int| 0 <= i < name.len() - 1 implies in_class(
        #[trigger] rest_of_name[i],
        CharClass::Alphanumeric,
    ) by {
        assert(rest_of_name[i] == name[i + 1]);
    }
    if name.len() - 1 < rest_of_name.len() {
        assert(rest_of_name[name.len() - 1] == tail[0]);
    }
    lemma_run_len_is(rest_of_name, CharClass::Alphanumeric, (name.len() - 1) as nat);
    assert(ident_len(at.code) == name.len());
    assert(at.code.take(name.len() as int) =~= name);
    assert(at.code.skip(name.len() as int) =~= tail);
    at.lemma_advance(name.len());
}

/// Whether two names read the same, wherever they stand.
pub open spec fn same_name() -> spec_fn(IdentModel, IdentModel) -> bool {
    |reread: IdentModel, model: IdentModel| reread.name == model.name
}

/// A name is read back from its own text, with a separator or nothing
/// behind it.
pub proof fn lemma_name_rereads(model: IdentModel, separator: char)
    requires
        is_name(model.name),
        is_separator(separator),
    ensures
        rereads::<Ident>(model, separator, same_name()),
{
    reveal_strlit(" ");
    lemma_separator_class(separator);
    assert forall|pre: StreamState, blanks: Seq<char>, tail: Seq<char>|
        pre.wf() && #[trigger] stands_in(pre.code, blanks, Ident::rendered(model), tail) && (
        blanks.len() == 0 || blanks == " "@) && (tail.len() > 0 ==> tail[0]
            == separator) implies (Ident::parse_spec(pre) matches Outcome::Parsed { value, rest }
        && same_name()(value, model) && rest.code == tail && rest.wf()) by {
        assert forall|i: int| 0 <= i < blanks.len() implies white_space(#[trigger] blanks[i]) by {
            assert(blanks[i] == ' ');
        }
        lemma_reparse_name(pre, blanks, model.name, tail);
    }
}

/// The round trip of names. Names that are written with a separator and a
/// blank between each two of them are read back as the same names, in the
/// same order, and nothing is left of the text. Where there is but one
/// name, no separator is written, and any character may be named as one.
pub proof fn lemma_names_round_trip(names: Seq<IdentModel>, separator: char, again: StreamState)
    requires
        names.len() > 0,
        forall|i: int| 0 <= i < names.len() ==> is_name((#[trigger] names[i]).name),
        names.len() > 1 ==> is_separator(separator),
        again.wf(),
        again.code == list_text::<Ident>(names, separator),
    ensures
        punctuated_spec::<Ident>(again, separator, false) matches Outcome::Parsed { value, rest }
            && rest.code.len() == 0 && names_of(value) == names_of(names),
{
    if names.len() == 1 {
        let name = names[0].name;
        assert(again.code =~= Seq::<char>::empty() + name + Seq::<char>::empty());
        lemma_reparse_name(again, Seq::empty(), name, Seq::empty());
        let value = Ident::parse_spec(again)->Parsed_value;
        let rest = Ident::parse_spec(again)->Parsed_rest;
        lemma_no_separator_at_end(rest, separator);
        assert(punctuated_more::<Ident>(rest, separator).0 =~= Seq::<IdentModel>::empty());
        let reread = punctuated_spec::<Ident>(again, separator, false)->Parsed_value;
        assert(reread =~= seq![value]);
        assert(names_of(reread) =~= names_of(names));
    } else {
        assert forall|i: int| 0 <= i < names.len() implies rereads::<Ident>(
            #[trigger] names[i],
            separator,
            same_name(),
        ) by {
            lemma_name_rereads(names[i], separator);
        }
        lemma_round_trip::<Ident>(names, separator, again, same_name());
        let reread = punctuated_spec::<Ident>(again, separator, false)->Parsed_value;
        assert forall|i: int| 0 <= i < names.len() implies names_of(reread)[i] == names_of(
            names,
        )[i] by {
            assert(same_name()(reread[i], names[i]));
        }
        assert(names_of(reread) =~= names_of(names));
    }
}

/// The round trip of a punctuated sequence of names: where a sequence has
/// been read, and is written with its separator and a blank between each
/// two names, reading what was written gives the same names again, and
/// leaves nothing.
pub proof fn lemma_punctuated_round_trip(first: StreamState, separator: char, again: StreamState)
    requires
        first.wf(),
        again.wf(),
        punctuated_spec::<Ident>(first, separator, false) matches Outcome::Parsed { value, .. }
            && again.code == list_text::<Ident>(value, separator),
    ensures
        punctuated_spec::<Ident>(again, separator, false) matches Outcome::Parsed { value, rest }
            && rest.code.len() == 0 && names_of(value) == names_of(
            punctuated_spec::<Ident>(first, separator, false)->Parsed_value,
        ),
{
    let idents = punctuated_spec::<Ident>(first, separator, false)->Parsed_value;
    let head = Ident::parse_spec(first)->Parsed_value;
    let after = Ident::parse_spec(first)->Parsed_rest;
    lemma_ident_sound(first);
    lemma_parsed_name(first);
    lemma_parsed_more(after, separator);
    let more = punctuated_more::<Ident>(after, separator).0;
    assert(idents == seq![head] + more);
    assert forall|i: int| 0 <= i < idents.len() implies is_name((#[trigger] idents[i]).name) by {
        if i > 0 {
            assert(idents[i] == more[i - 1]);
        }
    }
    lemma_names_round_trip(idents, separator, again);
}

} // verus!
