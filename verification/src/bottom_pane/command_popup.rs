//! The popup that completes slash commands.

use vstd::prelude::*;

use super::list_selection_view::{GenericDisplayRow, RowV, RowsToMeasure};
use super::scroll_state::{ScrollState, MAX_POPUP_ROWS};
use crate::potter_config::{first_word, word_of};
use crate::slash_command::{built_in_slash_commands, built_ins, SlashCommand};
use crate::text;

verus! {

/// The filter that the text in the composer gives: the first word behind a slash
/// in front of the first line.
pub open spec fn filter_of(text: Seq<char>) -> Seq<char> {
    let lines = text::lines(text);
    if lines.len() == 0 {
        seq![]
    } else {
        match text::strip_prefix(lines[0], "/"@) {
            Some(rest) => first_word(rest),
            None => seq![],
        }
    }
}

/// Whether the name of `cmd` is `filter`, in whatever case.
pub open spec fn is_exact(cmd: SlashCommand, filter: Seq<char>) -> bool {
    text::lowercase(cmd.command_v()) == text::lowercase(filter)
}

/// Whether the name of `cmd` starts with `filter`, in whatever case, and goes on.
pub open spec fn is_longer(cmd: SlashCommand, filter: Seq<char>) -> bool {
    !is_exact(cmd, filter) && text::strip_prefix(
        text::lowercase(cmd.command_v()),
        text::lowercase(filter),
    ) is Some
}

/// The commands of `commands` that are `filter` exactly, or those that start with
/// it and go on, in order.
pub open spec fn matching(commands: Seq<SlashCommand>, filter: Seq<char>, exact: bool) -> Seq<
    SlashCommand,
>
    decreases commands.len(),
{
    if commands.len() == 0 {
        seq![]
    } else {
        let before = matching(commands.drop_last(), filter, exact);
        let cmd = commands.last();
        if (exact && is_exact(cmd, filter)) || (!exact && is_longer(cmd, filter)) {
            before.push(cmd)
        } else {
            before
        }
    }
}

/// The commands that the popup offers: all of them without a filter, else those
/// that match it, exact matches first.
pub open spec fn offered(filter: Seq<char>) -> Seq<SlashCommand> {
    let f = text::trim(filter);
    if f.len() == 0 {
        built_ins()
    } else {
        matching(built_ins(), f, true) + matching(built_ins(), f, false)
    }
}

/// How many characters of an offered command are marked; none are where there is
/// no filter.
pub open spec fn marked(filter: Seq<char>) -> Option<nat> {
    let f = text::trim(filter);
    if f.len() == 0 {
        None
    } else {
        Some(f.len())
    }
}

/// The row of a command. The marks count the slash in front.
pub open spec fn command_row(cmd: SlashCommand, marked: Option<nat>) -> RowV {
    RowV {
        name: "/"@ + cmd.command_v(),
        display_shortcut: None,
        match_indices: match marked {
            Some(n) => Some(Seq::new(n, |i: int| (i + 1) as usize)),
            None => None,
        },
        description: Some(cmd.description_v()),
        wrap_indent: None,
        is_disabled: false,
        disabled_reason: None,
    }
}

/// The popup.
#[derive(Debug)]
pub struct CommandPopup {
    command_filter: String,
    state: ScrollState,
}

/// The state of a [`CommandPopup`].
#[verifier::ext_equal]
pub struct PopupState {
    pub filter: Seq<char>,
    pub scroll: ScrollState,
}

impl PopupState {
    /// How many rows show at once.
    pub open spec fn rows(self) -> usize {
        let n = offered(self.filter).len();
        if n < MAX_POPUP_ROWS {
            n as usize
        } else {
            MAX_POPUP_ROWS
        }
    }

    /// The popup after the text in the composer changed.
    pub open spec fn text_changed(self, text: Seq<char>) -> PopupState {
        let next = PopupState { filter: filter_of(text), ..self };
        let len = offered(next.filter).len() as usize;
        PopupState { scroll: self.scroll.clamped(len).made_visible(len, next.rows()), ..next }
    }

    /// The popup after a step up.
    pub open spec fn up(self) -> PopupState {
        let len = offered(self.filter).len() as usize;
        PopupState { scroll: self.scroll.moved_up(len).made_visible(len, self.rows()), ..self }
    }

    /// The popup after a step down.
    pub open spec fn down(self) -> PopupState {
        let len = offered(self.filter).len() as usize;
        PopupState { scroll: self.scroll.moved_down(len).made_visible(len, self.rows()), ..self }
    }

    /// The command that is selected.
    pub open spec fn selected(self) -> Option<SlashCommand> {
        match self.scroll.selected_idx {
            Some(i) if i < offered(self.filter).len() => Some(offered(self.filter)[i as int]),
            _ => None,
        }
    }
}

impl View for CommandPopup {
    type V = PopupState;

    closed spec fn view(&self) -> PopupState {
        PopupState { filter: self.command_filter@, scroll: self.state }
    }
}

fn filter_from_text(text: &str) -> (r: String)
    ensures
        r@ == filter_of(text@),
{
    let lines = text::split_lines(text);
    let ghost all = text::lines(text@);
    if lines.len() > 0 {
        assert(all[0] == lines@[0]@);
        if let Some(rest) = text::without_prefix(lines[0].as_str(), "/") {
            return word_of(rest);
        }
    }
    let r = String::new();
    assert(r@ =~= seq![]);
    r
}

impl CommandPopup {
    /// A popup without a filter.
    pub fn new() -> (r: Self)
        ensures
            r@ == (PopupState { filter: seq![], scroll: ScrollState::start() }),
    {
        let r = CommandPopup { command_filter: String::new(), state: ScrollState::new() };
        assert(r@ =~= PopupState { filter: seq![], scroll: ScrollState::start() });
        r
    }

    fn matches(&self, filter: &str, exact: bool) -> (r: Vec<SlashCommand>)
        ensures
            r@ == matching(built_ins(), filter@, exact),
            r@.len() <= 3,
    {
        let filter_lower = filter.to_lowercase();
        let commands = built_in_slash_commands();
        let ghost all = built_ins();
        let mut out: Vec<SlashCommand> = Vec::new();
        let mut i: usize = 0;
        assert(all.take(0) =~= seq![]);
        while i < commands.len()
            invariant
                i <= commands@.len(),
                all == built_ins(),
                commands@.len() == all.len(),
                forall|k: int| 0 <= k < commands@.len() ==> (#[trigger] commands@[k]).1 == all[k],
                filter_lower@ == text::lowercase(filter@),
                out@ == matching(all.take(i as int), filter@, exact),
                out@.len() <= i,
            decreases commands@.len() - i,
        {
            let cmd = commands[i].1;
            proof {
                assert(all.take(i + 1).drop_last() =~= all.take(i as int));
                assert(all.take(i + 1).last() == cmd);
            }
            let name = cmd.command().to_lowercase();
            let same = text::same(name.as_str(), filter_lower.as_str());
            let longer = !same && text::without_prefix(
                name.as_str(),
                filter_lower.as_str(),
            ).is_some();
            if (exact && same) || (!exact && longer) {
                out.push(cmd);
            }
            i += 1;
        }
        assert(all.take(i as int) =~= all);
        out
    }

    /// The commands that the popup offers.
    pub fn filtered_items(&self) -> (r: Vec<SlashCommand>)
        ensures
            r@ == offered(self@.filter),
            r@.len() <= 6,
    {
        let filter = self.command_filter.as_str().trim();
        if filter.is_empty() {
            assert(filter@.len() == 0);
            let commands = built_in_slash_commands();
            let mut out: Vec<SlashCommand> = Vec::new();
            let mut i: usize = 0;
            while i < commands.len()
                invariant
                    i <= commands@.len(),
                    commands@.len() == 3,
                    forall|k: int|
                        0 <= k < commands@.len() ==> (#[trigger] commands@[k]).1 == built_ins()[k],
                    out@ =~= built_ins().take(i as int),
                decreases commands@.len() - i,
            {
                out.push(commands[i].1);
                i += 1;
            }
            assert(out@ =~= built_ins());
            return out;
        }
        let mut out = self.matches(filter, true);
        let mut longer = self.matches(filter, false);
        out.append(&mut longer);
        out
    }

    /// The rows of the popup.
    pub fn rows(&self) -> (r: Vec<GenericDisplayRow>)
        ensures
            r@.map_values(|row: GenericDisplayRow| row@) == offered(self@.filter).map_values(
                |cmd: SlashCommand| command_row(cmd, marked(self@.filter)),
            ),
    {
        let ghost want = offered(self@.filter).map_values(
            |cmd: SlashCommand| command_row(cmd, marked(self@.filter)),
        );
        let commands = self.filtered_items();
        let filter = self.command_filter.as_str().trim();
        let count: usize = filter.unicode_len();
        let mut out: Vec<GenericDisplayRow> = Vec::new();
        let mut i: usize = 0;
        while i < commands.len()
            invariant
                i <= commands@.len(),
                commands@ == offered(self@.filter),
                count == filter@.len(),
                filter@ == text::trim(self@.filter),
                want == offered(self@.filter).map_values(
                    |cmd: SlashCommand| command_row(cmd, marked(self@.filter)),
                ),
                out@.len() == i,
                forall|k: int| 0 <= k < i ==> (#[trigger] out@[k])@ == want[k],
            decreases commands@.len() - i,
        {
            let cmd = commands[i];
            let match_indices = if count == 0 { None } else { Some(indices_behind_slash(count)) };
            let row = GenericDisplayRow {
                name: text::concat("/", cmd.command()),
                display_shortcut: None,
                match_indices,
                description: Some(cmd.description().to_string()),
                wrap_indent: None,
                is_disabled: false,
                disabled_reason: None,
            };
            assert(row@ =~= command_row(cmd, marked(self@.filter)));
            out.push(row);
            i += 1;
        }
        assert(out@.map_values(|row: GenericDisplayRow| row@) =~= want);
        out
    }

    /// The rows of the popup, to be measured for `width` columns.
    pub fn rows_to_measure(&self, width: u16) -> (r: RowsToMeasure)
        ensures
            r.rows@.map_values(|row: GenericDisplayRow| row@) == offered(self@.filter).map_values(
                |cmd: SlashCommand| command_row(cmd, marked(self@.filter)),
            ),
            r.state == self@.scroll,
            r.max_rows == MAX_POPUP_ROWS,
            r.width == width,
    {
        RowsToMeasure { rows: self.rows(), state: self.state, max_rows: MAX_POPUP_ROWS, width }
    }

    /// The rows of the screen that the popup asks for, given how high the rows that
    /// [`CommandPopup::rows_to_measure`] gives are: just those.
    pub fn calculate_required_height(&self, measured_height: u16) -> (h: u16)
        ensures
            h == measured_height,
    {
        measured_height
    }

    fn show_selected(&mut self, len: usize)
        requires
            len == offered(old(self)@.filter).len(),
        ensures
            final(self)@ == (PopupState {
                scroll: old(self)@.scroll.made_visible(len, old(self)@.rows()),
                ..old(self)@
            }),
    {
        let rows: usize = if len < MAX_POPUP_ROWS { len } else { MAX_POPUP_ROWS };
        self.state.ensure_visible(len, rows);
    }

    /// Takes in the text of the composer.
    pub fn on_composer_text_change(&mut self, text: &str)
        ensures
            final(self)@ == old(self)@.text_changed(text@),
    {
        self.command_filter = filter_from_text(text);
        let len: usize = self.filtered_items().len();
        self.state.clamp_selection(len);
        self.show_selected(len);
    }

    /// Moves the selection up.
    pub fn move_up(&mut self)
        ensures
            final(self)@ == old(self)@.up(),
    {
        let len: usize = self.filtered_items().len();
        self.state.move_up_wrap(len);
        self.show_selected(len);
    }

    /// Moves the selection down.
    pub fn move_down(&mut self)
        ensures
            final(self)@ == old(self)@.down(),
    {
        let len: usize = self.filtered_items().len();
        self.state.move_down_wrap(len);
        self.show_selected(len);
    }

    /// The command that is selected.
    pub fn selected_item(&self) -> (r: Option<SlashCommand>)
        ensures
            r == self@.selected(),
    {
        let commands = self.filtered_items();
        match self.state.selected_idx {
            Some(i) => {
                if i < commands.len() {
                    Some(commands[i])
                } else {
                    None
                }
            },
            None => None,
        }
    }
}

fn indices_behind_slash(count: usize) -> (r: Vec<usize>)
    ensures
        r@ == Seq::new(count as nat, |i: int| (i + 1) as usize),
{
    let mut out: Vec<usize> = Vec::new();
    let mut i: usize = 0;
    while i < count
        invariant
            i <= count,
            out@ =~= Seq::new(i as nat, |i: int| (i + 1) as usize),
        decreases count - i,
    {
        out.push(i + 1);
        i += 1;
    }
    out
}

proof fn lemma_matching(commands: Seq<SlashCommand>, filter: Seq<char>, exact: bool, k: int)
    requires
        0 <= k < commands.len(),
        (exact && is_exact(commands[k], filter)) || (!exact && is_longer(commands[k], filter)),
    ensures
        matching(commands, filter, exact).contains(commands[k]),
    decreases commands.len(),
{
    let all = matching(commands, filter, exact);
    if k == commands.len() - 1 {
        assert(all[all.len() - 1] == commands[k]);
    } else {
        let before = matching(commands.drop_last(), filter, exact);
        lemma_matching(commands.drop_last(), filter, exact, k);
        let m = choose|m: int| 0 <= m < before.len() && before[m] == commands[k];
        assert(all[m] == commands[k]);
    }
}

proof fn lemma_only_matching(commands: Seq<SlashCommand>, filter: Seq<char>, exact: bool)
    ensures
        forall|i: int|
            0 <= i < matching(commands, filter, exact).len() ==> (exact && is_exact(
                #[trigger] matching(commands, filter, exact)[i],
                filter,
            )) || (!exact && is_longer(matching(commands, filter, exact)[i], filter)),
    decreases commands.len(),
{
    if commands.len() > 0 {
        let before = matching(commands.drop_last(), filter, exact);
        let all = matching(commands, filter, exact);
        lemma_only_matching(commands.drop_last(), filter, exact);
        assert forall|i: int| 0 <= i < all.len() implies (exact && is_exact(
            #[trigger] all[i],
            filter,
        )) || (!exact && is_longer(all[i], filter)) by {
            if i < before.len() {
                assert(all[i] == before[i]);
            }
        }
    }
}

/// With a filter, exactly the commands that match it are offered, and a command
/// whose name is the filter comes in front of those that go on.
pub proof fn law_exact_matches_come_first(filter: Seq<char>)
    requires
        text::trim(filter).len() > 0,
    ensures
        forall|k: int|
            0 <= k < built_ins().len() ==> (offered(filter).contains(#[trigger] built_ins()[k])
                <==> is_exact(built_ins()[k], text::trim(filter)) || is_longer(
                built_ins()[k],
                text::trim(filter),
            )),
        forall|i: int, j: int|
            0 <= i < j < offered(filter).len() && is_exact(
                #[trigger] offered(filter)[j],
                text::trim(filter),
            ) ==> is_exact(#[trigger] offered(filter)[i], text::trim(filter)),
{
    let f = text::trim(filter);
    let all = offered(filter);
    let exact = matching(built_ins(), f, true);
    let longer = matching(built_ins(), f, false);
    lemma_only_matching(built_ins(), f, true);
    lemma_only_matching(built_ins(), f, false);
    assert forall|i: int| 0 <= i < all.len() implies if i < exact.len() {
        is_exact(#[trigger] all[i], f)
    } else {
        is_longer(all[i], f)
    } by {
        if i < exact.len() {
            assert(all[i] == exact[i]);
        } else {
            assert(all[i] == longer[i - exact.len()]);
        }
    }
    assert forall|k: int| 0 <= k < built_ins().len() implies (all.contains(
        #[trigger] built_ins()[k],
    ) <==> is_exact(built_ins()[k], f) || is_longer(built_ins()[k], f)) by {
        let cmd = built_ins()[k];
        if is_exact(cmd, f) {
            lemma_matching(built_ins(), f, true, k);
            let m = choose|m: int| 0 <= m < exact.len() && exact[m] == cmd;
            assert(all[m] == cmd);
        } else if is_longer(cmd, f) {
            lemma_matching(built_ins(), f, false, k);
            let m = choose|m: int| 0 <= m < longer.len() && longer[m] == cmd;
            assert(all[exact.len() + m] == cmd);
        }
    }
}

/// Whether the name of `cmd` starts with `token`, in whatever case.
pub open spec fn starts_with_token(cmd: SlashCommand, token: Seq<char>) -> bool {
    token.len() == 0 || text::strip_prefix(
        text::lowercase(cmd.command_v()),
        text::lowercase(token),
    ) is Some
}

proof fn lemma_word_has_no_whitespace(s: Seq<char>)
    ensures
        forall|i: int|
            0 <= i < crate::potter_config::upto_whitespace(s).len() ==> !text::is_whitespace(
                #[trigger] crate::potter_config::upto_whitespace(s)[i],
            ),
    decreases s.len(),
{
    if s.len() > 0 && !text::is_whitespace(s[0]) {
        let rest = s.drop_first();
        lemma_word_has_no_whitespace(rest);
        let word = crate::potter_config::upto_whitespace(s);
        assert forall|i: int| 0 <= i < word.len() implies !text::is_whitespace(
            #[trigger] word[i],
        ) by {
            if i > 0 {
                assert(word[i] == crate::potter_config::upto_whitespace(rest)[i - 1]);
            }
        }
    }
}

proof fn lemma_filter_is_trimmed(text: Seq<char>)
    ensures
        text::trim(filter_of(text)) == filter_of(text),
{
    let lines = text::lines(text);
    if lines.len() > 0 {
        if let Some(rest) = text::strip_prefix(lines[0], "/"@) {
            lemma_word_has_no_whitespace(text::trim_start(rest));
        }
    }
}

proof fn lemma_offered(filter: Seq<char>)
    requires
        text::trim(filter) == filter,
    ensures
        forall|i: int|
            0 <= i < offered(filter).len() ==> starts_with_token(
                #[trigger] offered(filter)[i],
                filter,
            ),
        offered(filter).len() == 0 <==> forall|k: int|
            0 <= k < built_ins().len() ==> !starts_with_token(#[trigger] built_ins()[k], filter),
        offered(filter).len() <= 6,
{
    if filter.len() == 0 {
        assert(starts_with_token(built_ins()[0], filter));
    } else {
        let all = offered(filter);
        let exact = matching(built_ins(), filter, true);
        let longer = matching(built_ins(), filter, false);
        law_exact_matches_come_first(filter);
        lemma_only_matching(built_ins(), filter, true);
        lemma_only_matching(built_ins(), filter, false);
        lemma_not_more(built_ins(), filter, true);
        lemma_not_more(built_ins(), filter, false);
        assert forall|i: int| 0 <= i < all.len() implies starts_with_token(
            #[trigger] all[i],
            filter,
        ) by {
            if i < exact.len() {
                assert(all[i] == exact[i]);
                lemma_exact_starts(exact[i], filter);
            } else {
                assert(all[i] == longer[i - exact.len()]);
            }
        }
        assert forall|k: int| 0 <= k < built_ins().len() && starts_with_token(
            #[trigger] built_ins()[k],
            filter,
        ) implies all.len() > 0 by {
            assert(all.contains(built_ins()[k]));
        }
        if all.len() > 0 {
            lemma_offered_is_built_in(filter, 0);
        }
    }
}

proof fn lemma_exact_starts(cmd: SlashCommand, filter: Seq<char>)
    requires
        is_exact(cmd, filter),
    ensures
        starts_with_token(cmd, filter),
{
    let name = text::lowercase(cmd.command_v());
    assert(name.subrange(0, name.len() as int) =~= name);
}

proof fn lemma_not_more(commands: Seq<SlashCommand>, filter: Seq<char>, exact: bool)
    ensures
        matching(commands, filter, exact).len() <= commands.len(),
        forall|i: int|
            0 <= i < matching(commands, filter, exact).len() ==> commands.contains(
                #[trigger] matching(commands, filter, exact)[i],
            ),
    decreases commands.len(),
{
    if commands.len() > 0 {
        let before = matching(commands.drop_last(), filter, exact);
        let all = matching(commands, filter, exact);
        lemma_not_more(commands.drop_last(), filter, exact);
        assert forall|i: int| 0 <= i < all.len() implies commands.contains(#[trigger] all[i]) by {
            if i < before.len() {
                assert(all[i] == before[i]);
                let k = choose|k: int|
                    0 <= k < commands.drop_last().len() && commands.drop_last()[k] == before[i];
                assert(commands[k] == before[i]);
            } else {
                assert(commands[commands.len() - 1] == all[i]);
            }
        }
    }
}

proof fn lemma_offered_is_built_in(filter: Seq<char>, i: int)
    requires
        0 <= i < offered(filter).len(),
    ensures
        built_ins().contains(offered(filter)[i]),
{
    let f = text::trim(filter);
    if f.len() > 0 {
        let exact = matching(built_ins(), f, true);
        let longer = matching(built_ins(), f, false);
        lemma_not_more(built_ins(), f, true);
        lemma_not_more(built_ins(), f, false);
        if i < exact.len() {
            assert(offered(filter)[i] == exact[i]);
        } else {
            assert(offered(filter)[i] == longer[i - exact.len()]);
        }
    } else {
        assert(built_ins()[i] == offered(filter)[i]);
    }
}

/// The popup after moves, up where an element of `moves` holds and down otherwise.
pub open spec fn after_moves(s: PopupState, moves: Seq<bool>) -> PopupState
    decreases moves.len(),
{
    if moves.len() == 0 {
        s
    } else {
        let before = after_moves(s, moves.drop_last());
        if moves.last() {
            before.up()
        } else {
            before.down()
        }
    }
}

proof fn lemma_moves_keep_the_selection(s: PopupState, moves: Seq<bool>)
    requires
        offered(s.filter).len() <= 6,
        s.scroll.fits(offered(s.filter).len()),
    ensures
        after_moves(s, moves).filter == s.filter,
        after_moves(s, moves).scroll.fits(offered(s.filter).len()),
    decreases moves.len(),
{
    if moves.len() > 0 {
        lemma_moves_keep_the_selection(s, moves.drop_last());
    }
}

/// Whatever the popup was before, once the text in the composer changed, and after
/// any moves that follow, a built-in command is selected that starts with the first
/// word behind the slash, in whatever case; nothing is selected exactly where there
/// is no such command.
pub proof fn law_selection_matches_the_text(s: PopupState, text: Seq<char>, moves: Seq<bool>)
    ensures
        ({
            let selected = after_moves(s.text_changed(text), moves).selected();
            &&& selected matches Some(cmd) ==> built_ins().contains(cmd) && starts_with_token(
                cmd,
                filter_of(text),
            )
            &&& selected is None <==> forall|k: int|
                0 <= k < built_ins().len() ==> !starts_with_token(
                    #[trigger] built_ins()[k],
                    filter_of(text),
                )
        }),
{
    let token = filter_of(text);
    lemma_filter_is_trimmed(text);
    lemma_offered(token);
    let t = s.text_changed(text);
    lemma_moves_keep_the_selection(t, moves);
    let u = after_moves(t, moves);
    if let Some(i) = u.scroll.selected_idx {
        lemma_offered_is_built_in(token, i as int);
    }
}

/// What the popup filters by is the word behind the slash that the text starts with, up to
/// whitespace or the end of the first line; a text that starts otherwise filters by nothing.
pub proof fn law_filter_is_the_word_behind_the_slash(
    word: Seq<char>,
    rest: Seq<char>,
    more: Seq<char>,
)
    requires
        forall|i: int| 0 <= i < word.len() ==> !text::is_whitespace(#[trigger] word[i]),
        word.len() > 0,
        rest.len() == 0 || rest[0] == ' ',
        !word.contains('\n') && !rest.contains('\n'),
    ensures
        filter_of(seq!['/'] + word + rest) == word,
        rest.len() > 0 && rest.last() != '\r' ==> filter_of(
            seq!['/'] + word + rest + seq!['\n'] + more,
        ) == word,
        word[0] != '/' ==> filter_of(word).len() == 0,
{
    reveal_strlit("/");
    let line = seq!['/'] + word + rest;
    assert("/"@ =~= seq!['/']);
    assert(text::is_whitespace(' '));
    assert forall|k: int| 0 <= k < line.len() implies #[trigger] line[k] != '\n' by {
        if 0 < k <= word.len() {
            assert(line[k] == word[k - 1]);
            assert(word.contains(word[k - 1]));
        } else if k > word.len() {
            assert(line[k] == rest[k - 1 - word.len()]);
            assert(rest.contains(rest[k - 1 - word.len()]));
        }
    }
    text::lemma_first_index_of_unique(line, '\n', line.len() as int);
    assert(text::lines(line) == seq![line]);
    assert(line.subrange(0, 1) =~= "/"@);
    let behind = word + rest;
    assert(line.skip(1) =~= behind);
    crate::potter_config::law_values_are_words(word, rest, crate::verbosity::Verbosity::Simple);
    let all = line + seq!['\n'] + more;
    let n = line.len() as int;
    assert(all[n] == '\n');
    assert forall|k: int| 0 <= k < n implies #[trigger] all[k] != '\n' by {
        assert(all[k] == line[k]);
    }
    text::lemma_first_index_of_unique(all, '\n', n);
    assert(all.take(n) =~= line);
    if rest.len() > 0 && rest.last() != '\r' {
        assert(line.last() == rest.last());
        assert(text::lines(all)[0] == line);
        assert(all =~= seq!['/'] + word + rest + seq!['\n'] + more);
    }
    if word[0] != '/' {
        text::lemma_first_index_of(word, '\n');
        assert(text::lines(word) == seq![word]);
        if text::occurs_at(word, "/"@, 0) {
            assert(word.subrange(0, 1)[0] == word[0]);
        }
    }
}

/// The row of a command shows its name behind a slash and what it does, and marks as many
/// characters of the name, from its start, as the filter has; without a filter it marks
/// none.
pub proof fn law_row_of_a_command(cmd: SlashCommand, filter: Seq<char>, i: int)
    ensures
        command_row(cmd, marked(filter)).name == "/"@ + cmd.command_v(),
        command_row(cmd, marked(filter)).description == Some(cmd.description_v()),
        !command_row(cmd, marked(filter)).is_disabled,
        text::trim(filter).len() == 0 ==> command_row(cmd, marked(filter)).match_indices is None,
        0 < text::trim(filter).len() < usize::MAX ==> {
            let marks = command_row(cmd, marked(filter)).match_indices;
            &&& marks is Some
            &&& marks->0.len() == text::trim(filter).len()
            &&& 0 <= i < marks->0.len() ==> marks->0[i] == i + 1
        },
{
}

/// Without a filter all commands are offered.
pub proof fn law_all_commands_without_a_filter(filter: Seq<char>, command: SlashCommand)
    requires
        text::trim(filter).len() == 0,
    ensures
        offered(filter) == built_ins(),
        offered(filter).contains(command),
{
    crate::slash_command::law_every_command_is_offered(command);
}

} // verus!
