//! Portable identifiers of plugins, their commands, and the actions they may
//! invoke.

use std::str::FromStr;
use vstd::prelude::*;

use crate::plugin::error::PluginPackageError;
use crate::text::{chars_of, same_text};

verus! {

/// Longest plugin identifier, in bytes.
pub const PLUGIN_ID_LIMIT: usize = 128;

/// Longest segment of a plugin identifier.
pub const PLUGIN_SEGMENT_LIMIT: usize = 63;

/// Longest command identifier.
pub const COMMAND_ID_LIMIT: usize = 64;

/// Longest action name behind the `cterm:` prefix.
pub const ACTION_SLUG_LIMIT: usize = 96;

/// A lower-case ASCII letter or a digit.
pub open spec fn is_alphanumeric(character: char) -> bool {
    'a' <= character <= 'z' || '0' <= character <= '9'
}

/// A segment holds 1 to `limit` lower-case letters, digits and hyphens, and
/// neither starts nor ends with a hyphen.
pub open spec fn is_segment(text: Seq<char>, limit: nat) -> bool {
    &&& 1 <= text.len() <= limit
    &&& is_alphanumeric(text.first())
    &&& is_alphanumeric(text.last())
    &&& forall|i: int| 0 <= i < text.len() ==> is_alphanumeric(#[trigger] text[i]) || text[i] == '-'
}

/// The pieces of `text` between separators; one more than there are separators.
pub open spec fn pieces(text: Seq<char>, separator: char) -> Seq<Seq<char>>
    decreases text.len(),
{
    if text.len() == 0 {
        seq![Seq::<char>::empty()]
    } else {
        let rest = pieces(text.drop_last(), separator);
        if text.last() == separator {
            rest.push(Seq::<char>::empty())
        } else {
            rest.drop_last().push(rest.last().push(text.last()))
        }
    }
}

/// A plugin identifier: at least two segments joined by dots, short enough as a
/// whole.
pub open spec fn is_plugin_id(text: Seq<char>) -> bool {
    &&& text.len() <= PLUGIN_ID_LIMIT
    &&& pieces(text, '.').len() >= 2
    &&& forall|i: int|
        0 <= i < pieces(text, '.').len() ==> is_segment(
            #[trigger] pieces(text, '.')[i],
            PLUGIN_SEGMENT_LIMIT as nat,
        )
}

/// An action scope: `cterm:` followed by a segment.
pub open spec fn is_action_scope(text: Seq<char>) -> bool {
    &&& "cterm:"@.is_prefix_of(text)
    &&& is_segment(text.skip("cterm:"@.len() as int), ACTION_SLUG_LIMIT as nat)
}

pub open spec fn is_command_id(text: Seq<char>) -> bool {
    is_segment(text, COMMAND_ID_LIMIT as nat)
}

fn is_alphanumeric_char(character: char) -> (alphanumeric: bool)
    ensures
        alphanumeric == is_alphanumeric(character),
{
    ('a' <= character && character <= 'z') || ('0' <= character && character <= '9')
}

/// Whether `chars[from..to]` is a segment.
pub fn valid_segment(chars: &Vec<char>, from: usize, to: usize, limit: usize) -> (valid: bool)
    requires
        from <= to <= chars@.len(),
    ensures
        valid == is_segment(chars@.subrange(from as int, to as int), limit as nat),
{
    let ghost segment = chars@.subrange(from as int, to as int);
    if from == to || to - from > limit {
        return false;
    }
    if !is_alphanumeric_char(chars[from]) || !is_alphanumeric_char(chars[to - 1]) {
        return false;
    }
    let mut index: usize = from;
    while index < to
        invariant
            from <= index <= to <= chars@.len(),
            segment == chars@.subrange(from as int, to as int),
            forall|i: int|
                0 <= i < index - from ==> is_alphanumeric(#[trigger] segment[i]) || segment[i]
                    == '-',
        decreases to - index,
    {
        if !is_alphanumeric_char(chars[index]) && chars[index] != '-' {
            proof {
                assert(segment[index - from] == chars@[index as int]);
            }
            return false;
        }
        index += 1;
    }
    true
}

/// Whether `chars` is a plugin identifier.
pub fn valid_dotted_id(chars: &Vec<char>) -> (valid: bool)
    ensures
        valid == is_plugin_id(chars@),
{
    if chars.len() > PLUGIN_ID_LIMIT {
        return false;
    }
    let mut start: usize = 0;
    let mut index: usize = 0;
    let mut dots: usize = 0;
    let mut all_valid: bool = true;
    let ghost mut head: Seq<Seq<char>> = Seq::empty();
    proof {
        assert(chars@.subrange(0, 0) =~= Seq::<char>::empty());
        assert(pieces(chars@.take(0), '.') =~= head.push(chars@.subrange(0, 0)));
    }
    while index < chars.len()
        invariant
            start <= index <= chars@.len(),
            dots <= index,
            dots == head.len(),
            pieces(chars@.take(index as int), '.') == head.push(
                chars@.subrange(start as int, index as int),
            ),
            all_valid == forall|i: int|
                0 <= i < head.len() ==> is_segment(
                    #[trigger] head[i],
                    PLUGIN_SEGMENT_LIMIT as nat,
                ),
        decreases chars@.len() - index,
    {
        let ghost before = chars@.take(index as int);
        let ghost after = chars@.take(index + 1);
        let ghost current = chars@.subrange(start as int, index as int);
        proof {
            assert(after.drop_last() =~= before);
            assert(head.push(current).drop_last() =~= head);
        }
        if chars[index] == '.' {
            let piece_valid = valid_segment(chars, start, index, PLUGIN_SEGMENT_LIMIT);
            proof {
                let old_head = head;
                head = old_head.push(current);
                assert(head[old_head.len() as int] == current);
                assert(forall|i: int| 0 <= i < old_head.len() ==> head[i] == old_head[i]);
                assert(chars@.subrange(index + 1, index + 1) =~= Seq::<char>::empty());
            }
            all_valid = all_valid && piece_valid;
            dots += 1;
            index += 1;
            start = index;
        } else {
            proof {
                assert(chars@.subrange(start as int, index + 1) =~= current.push(
                    chars@[index as int],
                ));
            }
            index += 1;
        }
    }
    proof {
        assert(chars@.take(chars@.len() as int) =~= chars@);
    }
    let last_valid = valid_segment(chars, start, chars.len(), PLUGIN_SEGMENT_LIMIT);
    proof {
        let all = pieces(chars@, '.');
        assert(all[head.len() as int] == chars@.subrange(start as int, chars@.len() as int));
        assert(forall|i: int| 0 <= i < head.len() ==> all[i] == head[i]);
    }
    dots >= 1 && all_valid && last_valid
}

/// The identifier of a plugin.
#[derive(Debug, PartialEq, Eq, PartialOrd, Ord, Hash)]
pub struct PluginId {
    value: String,
}

impl View for PluginId {
    type V = Seq<char>;

    closed spec fn view(&self) -> Seq<char> {
        self.value@
    }
}

impl Clone for PluginId {
    fn clone(&self) -> (copy: Self)
        ensures
            copy == *self,
    {
        PluginId { value: self.value.clone() }
    }
}

impl PluginId {
    /// Parses a plugin identifier; anything else is refused with the text itself.
    pub fn parse(value: &str) -> (result: Result<PluginId, PluginPackageError>)
        ensures
            match result {
                Ok(id) => is_plugin_id(value@) && id@ == value@,
                Err(error) => !is_plugin_id(value@)
                    && (error matches PluginPackageError::InvalidPluginId(text) && text@ == value@),
            },
    {
        let chars = chars_of(value);
        if valid_dotted_id(&chars) {
            Ok(PluginId { value: value.to_owned() })
        } else {
            Err(PluginPackageError::InvalidPluginId(value.to_owned()))
        }
    }

    pub fn as_str(&self) -> (text: &str)
        ensures
            text@ == self@,
    {
        self.value.as_str()
    }

    /// Whether two identifiers are the same.
    pub fn same(&self, other: &PluginId) -> (same: bool)
        ensures
            same == (self@ == other@),
    {
        same_text(self.value.as_str(), other.value.as_str())
    }
}

impl FromStr for PluginId {
    type Err = PluginPackageError;

    /// Reads a plugin identifier from its text.
    fn from_str(value: &str) -> (result: Result<Self, Self::Err>)
        ensures
            match result {
                Ok(id) => is_plugin_id(value@) && id@ == value@,
                Err(error) => !is_plugin_id(value@)
                    && (error matches PluginPackageError::InvalidPluginId(text) && text@ == value@),
            },
    {
        PluginId::parse(value)
    }
}

/// The identifier of a command within its plugin.
#[derive(Debug, PartialEq, Eq, PartialOrd, Ord, Hash)]
pub struct CommandId {
    value: String,
}

impl View for CommandId {
    type V = Seq<char>;

    closed spec fn view(&self) -> Seq<char> {
        self.value@
    }
}

impl Clone for CommandId {
    fn clone(&self) -> (copy: Self)
        ensures
            copy == *self,
    {
        CommandId { value: self.value.clone() }
    }
}

impl CommandId {
    /// Parses a command identifier; anything else is refused with the text itself.
    pub fn parse(value: &str) -> (result: Result<CommandId, PluginPackageError>)
        ensures
            match result {
                Ok(id) => is_command_id(value@) && id@ == value@,
                Err(error) => !is_command_id(value@)
                    && (error matches PluginPackageError::InvalidCommandId(text) && text@
                    == value@),
            },
    {
        let chars = chars_of(value);
        proof {
            assert(chars@.subrange(0, chars@.len() as int) =~= chars@);
        }
        if valid_segment(&chars, 0, chars.len(), COMMAND_ID_LIMIT) {
            Ok(CommandId { value: value.to_owned() })
        } else {
            Err(PluginPackageError::InvalidCommandId(value.to_owned()))
        }
    }

    pub fn as_str(&self) -> (text: &str)
        ensures
            text@ == self@,
    {
        self.value.as_str()
    }

    /// Whether two identifiers are the same.
    pub fn same(&self, other: &CommandId) -> (same: bool)
        ensures
            same == (self@ == other@),
    {
        same_text(self.value.as_str(), other.value.as_str())
    }
}

/// The exact name of one native action.
#[derive(Debug, PartialEq, Eq, PartialOrd, Ord, Hash)]
pub struct ActionScope {
    value: String,
}

impl View for ActionScope {
    type V = Seq<char>;

    closed spec fn view(&self) -> Seq<char> {
        self.value@
    }
}

impl Clone for ActionScope {
    fn clone(&self) -> (copy: Self)
        ensures
            copy == *self,
    {
        ActionScope { value: self.value.clone() }
    }
}

impl ActionScope {
    /// Parses an action scope; anything else is refused with the text itself.
    pub fn parse(value: &str) -> (result: Result<ActionScope, PluginPackageError>)
        ensures
            match result {
                Ok(scope) => is_action_scope(value@) && scope@ == value@,
                Err(error) => !is_action_scope(value@)
                    && (error matches PluginPackageError::InvalidActionScope(text) && text@
                    == value@),
            },
    {
        proof {
            reveal_strlit("cterm:");
        }
        let chars = chars_of(value);
        if chars.len() >= 6 && chars[0] == 'c' && chars[1] == 't' && chars[2] == 'e' && chars[3]
            == 'r' && chars[4] == 'm' && chars[5] == ':' {
            proof {
                assert(value@.take(6) =~= "cterm:"@);
                assert(value@ =~= "cterm:"@ + value@.skip(6));
                assert(chars@.subrange(6, chars@.len() as int) =~= value@.skip(6));
            }
            if valid_segment(&chars, 6, chars.len(), ACTION_SLUG_LIMIT) {
                return Ok(ActionScope { value: value.to_owned() });
            }
        }
        proof {
            if "cterm:"@.is_prefix_of(value@) {
                assert(forall|i: int| 0 <= i < 6 ==> value@[i] == "cterm:"@[i]);
                assert(chars@.subrange(6, chars@.len() as int) =~= value@.skip(6));
            }
        }
        Err(PluginPackageError::InvalidActionScope(value.to_owned()))
    }

    pub fn as_str(&self) -> (text: &str)
        ensures
            text@ == self@,
    {
        self.value.as_str()
    }

    /// Whether two scopes name the same action.
    pub fn same(&self, other: &ActionScope) -> (same: bool)
        ensures
            same == (self@ == other@),
    {
        same_text(self.value.as_str(), other.value.as_str())
    }
}

/// Letters and digits are the lower-case ones of ASCII.
pub proof fn law_letters_and_digits_have_their_codes(character: char)
    ensures
        is_alphanumeric(character) <==> 97 <= character as u32 <= 122 || 48 <= character as u32
            <= 57,
{
}

/// A segment is a letter or digit, or two of them around letters, digits and hyphens; it
/// is within a limit exactly if it is no longer, and a larger limit refuses none.
pub proof fn law_segments_begin_and_end_with_letters(
    text: Seq<char>,
    character: char,
    limit: nat,
    larger: nat,
)
    requires
        1 <= limit <= larger,
    ensures
        is_segment(text, limit) ==> is_segment(text, larger),
        is_segment(text, larger) && text.len() <= limit ==> is_segment(text, limit),
        is_segment(text, limit) ==> 1 <= text.len() <= limit && text[0] != '-'
            && text[text.len() - 1] != '-',
        is_segment(seq![character], limit) <==> is_alphanumeric(character),
        is_segment(text, limit) && is_alphanumeric(character) ==> is_segment(
            text.push('-').push(character),
            (limit + 2) as nat,
        ),
        !is_segment(text.push('-'), limit),
        !is_segment(seq!['-'] + text, limit),
        !is_segment(Seq::empty(), limit),
        text.contains('.') ==> !is_segment(text, limit),
{
    let longer = text.push('-').push(character);
    if is_segment(text, limit) && is_alphanumeric(character) {
        assert forall|i: int| 0 <= i < longer.len() implies is_alphanumeric(#[trigger] longer[i])
            || longer[i] == '-' by {
            if i < text.len() {
                assert(longer[i] == text[i]);
            }
        }
        assert(longer.first() == text.first());
        assert(longer.last() == character);
    }
    let single = seq![character];
    assert(single.first() == character && single.last() == character);
    if text.contains('.') {
        let i = choose|i: int| 0 <= i < text.len() && text[i] == '.';
        assert(!is_alphanumeric(text[i]) && text[i] != '-');
    }
    assert(text.push('-').last() == '-');
    assert((seq!['-'] + text).first() == '-');
}

/// A text without separators is its own only piece, and a separator ends a piece: the
/// pieces of two texts with a separator between them are those of the first and then
/// those of the second.
pub proof fn law_separators_part_the_pieces(left: Seq<char>, right: Seq<char>, separator: char)
    ensures
        !left.contains(separator) ==> pieces(left, separator) == seq![left],
        pieces(left + seq![separator] + right, separator) == pieces(left, separator) + pieces(
            right,
            separator,
        ),
        pieces(left, separator).len() >= 1,
    decreases left.len() + right.len(),
{
    lemma_pieces_of_plain(left, separator);
    lemma_pieces_nonempty(left, separator);
    lemma_pieces_nonempty(right, separator);
    let whole = left + seq![separator] + right;
    if right.len() == 0 {
        assert(whole.drop_last() =~= left);
        assert(pieces(whole, separator) =~= pieces(left, separator) + pieces(right, separator));
    } else {
        let front = right.drop_last();
        law_separators_part_the_pieces(left, front, separator);
        assert(whole.drop_last() =~= left + seq![separator] + front);
        assert(whole.last() == right.last());
        lemma_pieces_nonempty(front, separator);
        let both = pieces(left, separator) + pieces(front, separator);
        assert(both.last() == pieces(front, separator).last());
        assert(pieces(whole, separator) =~= pieces(left, separator) + pieces(right, separator));
    }
}

proof fn lemma_pieces_nonempty(text: Seq<char>, separator: char)
    ensures
        pieces(text, separator).len() >= 1,
    decreases text.len(),
{
    if text.len() > 0 {
        lemma_pieces_nonempty(text.drop_last(), separator);
    }
}

proof fn lemma_pieces_of_plain(text: Seq<char>, separator: char)
    ensures
        !text.contains(separator) ==> pieces(text, separator) == seq![text],
    decreases text.len(),
{
    if text.len() > 0 && !text.contains(separator) {
        let front = text.drop_last();
        assert(text.contains(text.last()));
        assert forall|i: int| 0 <= i < front.len() implies front[i] != separator by {
            assert(text[i] != separator);
        }
        lemma_pieces_of_plain(front, separator);
        assert(pieces(text, separator) =~= seq![front.push(text.last())]);
        assert(front.push(text.last()) =~= text);
    } else if text.len() == 0 {
        assert(text =~= Seq::<char>::empty());
    }
}

/// Two segments with a dot between them name a plugin, where neither is longer than 63
/// characters and both together are not longer than 128; one segment alone does not, and
/// neither does anything that ends in a dot.
pub proof fn law_plugins_are_named_by_two_segments(first: Seq<char>, second: Seq<char>)
    ensures
        is_segment(first, 63) && is_segment(second, 63) && first.len() + 1 + second.len() <= 128
            ==> is_plugin_id(first + seq!['.'] + second),
        !first.contains('.') ==> !is_plugin_id(first),
        !is_plugin_id(first.push('.')),
        first.len() > 128 ==> !is_plugin_id(first),
        is_plugin_id(first + seq!['.'] + second) && !first.contains('.') && !second.contains('.')
            ==> is_segment(first, 63) && is_segment(second, 63),
{
    let whole = first + seq!['.'] + second;
    law_separators_part_the_pieces(first, second, '.');
    lemma_pieces_of_plain(first, '.');
    lemma_pieces_of_plain(second, '.');
    law_segments_begin_and_end_with_letters(first, 'a', 63, 63);
    law_segments_begin_and_end_with_letters(second, 'a', 63, 63);
    if is_segment(first, 63) && is_segment(second, 63) {
        assert(pieces(whole, '.') =~= seq![first, second]);
    }
    if is_plugin_id(whole) && !first.contains('.') && !second.contains('.') {
        assert(pieces(whole, '.') =~= seq![first, second]);
        assert(is_segment(pieces(whole, '.')[0], 63));
        assert(is_segment(pieces(whole, '.')[1], 63));
    }
    let ended = first.push('.');
    law_separators_part_the_pieces(first, Seq::empty(), '.');
    assert(first + seq!['.'] + Seq::<char>::empty() =~= ended);
    let parts = pieces(ended, '.');
    if is_plugin_id(ended) {
        assert(is_segment(parts[parts.len() - 1], 63));
        assert(parts[parts.len() - 1].len() == 0);
    }
}

/// A scope is `cterm:` before a segment of at most 96 characters, and a command a segment
/// of at most 64.
pub proof fn law_scopes_stand_behind_their_prefix(slug: Seq<char>)
    ensures
        is_action_scope(seq!['c', 't', 'e', 'r', 'm', ':'] + slug) <==> is_segment(slug, 96),
        is_command_id(slug) <==> is_segment(slug, 64),
        !slug.contains(':') ==> !is_action_scope(slug),
{
    reveal_strlit("cterm:");
    let prefix = seq!['c', 't', 'e', 'r', 'm', ':'];
    assert("cterm:"@ =~= prefix);
    let whole = prefix + slug;
    assert(prefix =~= whole.subrange(0, prefix.len() as int));
    assert(whole.skip(6) =~= slug);
    if is_action_scope(slug) {
        assert(slug.subrange(0, 6)[5] == ':');
        assert(slug[5] == ':');
    }
}

/// A plugin identifier stays one when a segment is put before it, as long as the whole has
/// at most 128 characters, and when the first of three or more segments is taken away.
pub proof fn law_plugin_names_grow_by_segments(first: Seq<char>, rest: Seq<char>)
    requires
        !first.contains('.'),
        rest.contains('.'),
    ensures
        is_plugin_id(first + seq!['.'] + rest) <==> is_segment(first, 63) && is_plugin_id(rest)
            && first.len() + 1 + rest.len() <= 128,
{
    let whole = first + seq!['.'] + rest;
    let parts = pieces(rest, '.');
    law_separators_part_the_pieces(first, rest, '.');
    assert(pieces(whole, '.') =~= seq![first] + parts);
    let at = choose|at: int| 0 <= at < rest.len() && rest[at] == '.';
    let left = rest.take(at);
    let right = rest.skip(at + 1);
    assert(rest =~= left + seq!['.'] + right);
    law_separators_part_the_pieces(left, right, '.');
    lemma_pieces_nonempty(left, '.');
    lemma_pieces_nonempty(right, '.');
    assert(parts.len() >= 2);
    if is_plugin_id(whole) {
        assert(is_segment(pieces(whole, '.')[0], 63));
        assert forall|i: int| 0 <= i < parts.len() implies is_segment(#[trigger] parts[i], 63) by {
            assert(pieces(whole, '.')[i + 1] == parts[i]);
        }
    }
    if is_segment(first, 63) && is_plugin_id(rest) {
        assert forall|i: int| 0 <= i < pieces(whole, '.').len() implies is_segment(
            #[trigger] pieces(whole, '.')[i],
            63,
        ) by {
            if i > 0 {
                assert(pieces(whole, '.')[i] == parts[i - 1]);
            }
        }
    }
}

} // verus!
