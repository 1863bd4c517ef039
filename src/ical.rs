//! The calendar document format: unfolding of continued lines and the split
//! into components and properties, both done by the icalendar crate. The
//! parsed document is handed to the rest of the library as plain values.
use vstd::prelude::*;

verus! {

/// One `NAME:VALUE` line of a component (parameters dropped).
pub struct IcsProperty {
    pub name: String,
    pub value: String,
}

/// A `BEGIN:NAME` ... `END:NAME` block with its own properties, in order.
pub struct IcsComponent {
    pub name: String,
    pub properties: Vec<IcsProperty>,
}

/// A property as a pair of name and value.
pub type PropertyView = (Seq<char>, Seq<char>);

/// A component as its name and its properties.
pub type ComponentView = (Seq<char>, Seq<PropertyView>);

impl View for IcsProperty {
    type V = PropertyView;

    open spec fn view(&self) -> PropertyView {
        (self.name@, self.value@)
    }
}

impl View for IcsComponent {
    type V = ComponentView;

    open spec fn view(&self) -> ComponentView {
        (self.name@, self.properties@.map_values(|p: IcsProperty| p@))
    }
}

pub open spec fn components_view(cs: Seq<IcsComponent>) -> Seq<ComponentView> {
    cs.map_values(|c: IcsComponent| c@)
}

/// A space or a tab: what opens a continued line.
pub open spec fn is_fold_space(c: char) -> bool {
    c == ' ' || c == '\t'
}

/// The document with its continued lines joined: read from the start, each
/// line break (`\r\n` or `\n`) followed by a space or a tab is removed
/// together with that character.
pub open spec fn unfolded(text: Seq<char>) -> Seq<char>
    decreases text.len(),
{
    if text.len() >= 3 && text[0] == '\r' && text[1] == '\n' && is_fold_space(text[2]) {
        unfolded(text.subrange(3, text.len() as int))
    } else if text.len() >= 2 && text[0] == '\n' && is_fold_space(text[1]) {
        unfolded(text.subrange(2, text.len() as int))
    } else if text.len() == 0 {
        text
    } else {
        seq![text[0]] + unfolded(text.subrange(1, text.len() as int))
    }
}

/// What `icalendar::parser::read_calendar` finds in an unfolded document:
/// the components under the calendar root, or `None` where it cannot parse.
pub uninterp spec fn calendar_components(text: Seq<char>) -> Option<Seq<ComponentView>>;

/// A line break followed by a space or a tab: the mark of a continued line.
pub open spec fn has_fold_at(text: Seq<char>, i: int) -> bool {
    &&& 0 <= i
    &&& i + 1 < text.len()
    &&& text[i] == '\n'
    &&& is_fold_space(text[i + 1])
}

pub open spec fn has_fold(text: Seq<char>) -> bool {
    exists|i: int| has_fold_at(text, i)
}

/// Relies on `icalendar::parser::unfold`, which splits the text at each of
/// `\r\n `, `\n `, `\r\n\t` and `\n\t` in turn and joins the pieces: the
/// same as removing those breaks in one pass from the start.
#[verifier::external_body]
pub fn unfold_lines(text: &str) -> (r: String)
    ensures
        r@ == unfolded(text@),
{
    icalendar::parser::unfold(text)
}

/// Relies on `icalendar::parser::read_calendar`: the top-level components of
/// the calendar, each with its name and its properties' names and values.
#[verifier::external_body]
pub fn read_components(text: &str) -> (r: Result<Vec<IcsComponent>, String>)
    ensures
        r is Ok <==> calendar_components(text@) is Some,
        r matches Ok(cs) ==> calendar_components(text@) == Some(components_view(cs@)),
{
    icalendar::parser::read_calendar(text).map(|cal| {
        cal.components.iter().map(|c| IcsComponent {
            name: c.name.as_str().to_string(),
            properties: c.properties.iter().map(|p| IcsProperty {
                name: p.name.as_str().to_string(),
                value: p.val.as_str().to_string(),
            }).collect(),
        }).collect()
    })
}

/// A document without continued lines is left as it is.
pub proof fn lemma_unfold_without_folds(text: Seq<char>)
    requires
        !has_fold(text),
    ensures
        unfolded(text) == text,
    decreases text.len(),
{
    if text.len() > 0 {
        let rest = text.subrange(1, text.len() as int);
        assert(!has_fold_at(text, 0));
        if text.len() >= 3 && text[0] == '\r' && text[1] == '\n' && is_fold_space(text[2]) {
            assert(has_fold_at(text, 1));
        }
        assert forall|i: int| !has_fold_at(rest, i) by {
            if has_fold_at(rest, i) {
                assert(has_fold_at(text, i + 1));
            }
        }
        lemma_unfold_without_folds(rest);
        assert(seq![text[0]] + rest =~= text);
    }
}

} // verus!
