//! Streaming a session's screen to a client.
//!
//! A client receives whole screens, or, in incremental mode, only the rows that
//! changed since the last update and whatever else changed beside them.

use vstd::prelude::*;

use crate::bytes::{byte_lists, copy_bytes, copy_lists, same_lists};
use crate::text::same_bytes;

verus! {

/// One visible row. Each cell is held in its encoded form.
#[derive(Debug, PartialEq, Eq)]
pub struct Row {
    pub cells: Vec<Vec<u8>>,
    pub wrapped: bool,
    pub shell_prompt: bool,
    pub command_start: bool,
    pub command_end: bool,
}

/// A row that changed, and where it stands.
#[derive(Debug, PartialEq, Eq)]
pub struct DirtyRow {
    pub row_index: usize,
    pub row: Row,
}

/// What a client sees of a screen. Cursor, modes, images and extra cursors are
/// held in their encoded form.
#[derive(Debug, PartialEq, Eq)]
pub struct ScreenState {
    pub rows: Vec<Row>,
    pub cursor: Vec<u8>,
    pub modes: Vec<u8>,
    pub images: Vec<Vec<u8>>,
    pub extra_cursors: Vec<u8>,
}

/// A whole screen.
#[derive(Debug, PartialEq, Eq)]
pub struct FullScreen {
    pub cols: usize,
    pub rows: usize,
    pub state: ScreenState,
    pub title: String,
    pub drcs_fonts: Vec<Vec<u8>>,
}

/// The rows that changed, and the other parts where they changed.
#[derive(Debug, PartialEq, Eq)]
pub struct DirtyRows {
    pub rows: Vec<DirtyRow>,
    pub cursor: Option<Vec<u8>>,
    pub modes: Option<Vec<u8>>,
    pub images: Option<Vec<Vec<u8>>>,
    pub extra_cursors: Option<Vec<u8>>,
}

#[derive(Debug, PartialEq, Eq)]
pub enum UpdateType {
    FullScreen(FullScreen),
    DirtyRows(DirtyRows),
    Title(String),
}

#[derive(Debug, PartialEq, Eq)]
pub struct ScreenUpdate {
    pub session_id: String,
    pub sequence: u64,
    pub update_type: UpdateType,
}

pub ghost struct RowView {
    pub cells: Seq<Seq<u8>>,
    pub wrapped: bool,
    pub shell_prompt: bool,
    pub command_start: bool,
    pub command_end: bool,
}

/// The model of what a client sees.
pub ghost struct StateView {
    pub rows: Seq<RowView>,
    pub cursor: Seq<u8>,
    pub modes: Seq<u8>,
    pub images: Seq<Seq<u8>>,
    pub extra_cursors: Seq<u8>,
}

/// The model of an incremental update.
pub ghost struct DirtyView {
    pub rows: Seq<(int, RowView)>,
    pub cursor: Option<Seq<u8>>,
    pub modes: Option<Seq<u8>>,
    pub images: Option<Seq<Seq<u8>>>,
    pub extra_cursors: Option<Seq<u8>>,
}

impl View for Row {
    type V = RowView;

    open spec fn view(&self) -> RowView {
        RowView {
            cells: byte_lists(self.cells@),
            wrapped: self.wrapped,
            shell_prompt: self.shell_prompt,
            command_start: self.command_start,
            command_end: self.command_end,
        }
    }
}

pub open spec fn row_views(rows: Seq<Row>) -> Seq<RowView> {
    rows.map_values(|row: Row| row@)
}

pub open spec fn dirty_views(rows: Seq<DirtyRow>) -> Seq<(int, RowView)> {
    rows.map_values(|dirty: DirtyRow| (dirty.row_index as int, dirty.row@))
}

impl View for ScreenState {
    type V = StateView;

    open spec fn view(&self) -> StateView {
        StateView {
            rows: row_views(self.rows@),
            cursor: self.cursor@,
            modes: self.modes@,
            images: byte_lists(self.images@),
            extra_cursors: self.extra_cursors@,
        }
    }
}

pub open spec fn optional_bytes(bytes: Option<Vec<u8>>) -> Option<Seq<u8>> {
    match bytes {
        Some(bytes) => Some(bytes@),
        None => None,
    }
}

impl View for DirtyRows {
    type V = DirtyView;

    open spec fn view(&self) -> DirtyView {
        DirtyView {
            rows: dirty_views(self.rows@),
            cursor: optional_bytes(self.cursor),
            modes: optional_bytes(self.modes),
            images: match self.images {
                Some(images) => Some(byte_lists(images@)),
                None => None,
            },
            extra_cursors: optional_bytes(self.extra_cursors),
        }
    }
}

impl Row {
    fn duplicate(&self) -> (copy: Row)
        ensures
            copy@ == self@,
    {
        Row {
            cells: copy_lists(&self.cells),
            wrapped: self.wrapped,
            shell_prompt: self.shell_prompt,
            command_start: self.command_start,
            command_end: self.command_end,
        }
    }

    fn same(&self, other: &Row) -> (same: bool)
        ensures
            same == (self@ == other@),
    {
        self.wrapped == other.wrapped && self.shell_prompt == other.shell_prompt
            && self.command_start == other.command_start && self.command_end == other.command_end
            && same_lists(&self.cells, &other.cells)
    }
}

fn copy_rows(rows: &Vec<Row>) -> (copy: Vec<Row>)
    ensures
        row_views(copy@) == row_views(rows@),
{
    let mut copy: Vec<Row> = Vec::new();
    let mut index: usize = 0;
    while index < rows.len()
        invariant
            index <= rows@.len(),
            copy@.len() == index,
            forall|i: int| 0 <= i < index ==> (#[trigger] copy@[i])@ == rows@[i]@,
        decreases rows@.len() - index,
    {
        copy.push(rows[index].duplicate());
        index += 1;
    }
    proof {
        assert(row_views(copy@) =~= row_views(rows@));
    }
    copy
}

impl ScreenState {
    pub fn duplicate(&self) -> (copy: ScreenState)
        ensures
            copy@ == self@,
    {
        ScreenState {
            rows: copy_rows(&self.rows),
            cursor: copy_bytes(&self.cursor),
            modes: copy_bytes(&self.modes),
            images: copy_lists(&self.images),
            extra_cursors: copy_bytes(&self.extra_cursors),
        }
    }
}

/// Whether the row at `index` differs from the one that the client has there, or
/// is new to the client.
pub open spec fn row_changed(old_rows: Seq<RowView>, new_rows: Seq<RowView>, index: int) -> bool {
    index >= old_rows.len() || new_rows[index] != old_rows[index]
}

/// The changed rows among the first `count`, in order.
pub open spec fn changed_rows(old_rows: Seq<RowView>, new_rows: Seq<RowView>, count: nat) -> Seq<
    (int, RowView),
>
    decreases count,
{
    if count == 0 {
        Seq::empty()
    } else {
        let head = changed_rows(old_rows, new_rows, (count - 1) as nat);
        if row_changed(old_rows, new_rows, count - 1) {
            head.push((count - 1, new_rows[count - 1]))
        } else {
            head
        }
    }
}

pub open spec fn changed<A>(old_part: A, new_part: A) -> Option<A> {
    if old_part == new_part {
        None
    } else {
        Some(new_part)
    }
}

/// The difference that takes a client from one state to another.
pub open spec fn difference(old_state: StateView, new_state: StateView) -> DirtyView {
    DirtyView {
        rows: changed_rows(old_state.rows, new_state.rows, new_state.rows.len()),
        cursor: changed(old_state.cursor, new_state.cursor),
        modes: changed(old_state.modes, new_state.modes),
        images: changed(old_state.images, new_state.images),
        extra_cursors: changed(old_state.extra_cursors, new_state.extra_cursors),
    }
}

/// Nothing changed that a client would have to be told.
pub open spec fn is_empty_difference(dirty: DirtyView) -> bool {
    &&& dirty.rows.len() == 0
    &&& dirty.cursor is None
    &&& dirty.modes is None
    &&& dirty.images is None
    &&& dirty.extra_cursors is None
}

/// A client gets whole screens, or is to get one after events were lost.
pub open spec fn whole_due(incremental: bool, resyncs: bool) -> bool {
    !incremental || resyncs
}

/// Whether a client is to get a whole screen after events were lost.
pub open spec fn resyncs_after_lag(incremental: bool, resyncs: bool) -> bool {
    resyncs || incremental
}

/// A client that takes whole screens always gets them; an incremental one gets one after
/// events were lost, and differences otherwise.
pub proof fn law_lost_events_bring_a_whole_screen(incremental: bool, resyncs: bool)
    ensures
        whole_due(incremental, resyncs_after_lag(incremental, resyncs)),
        whole_due(false, resyncs),
        !whole_due(true, false),
        whole_due(true, true),
        !resyncs_after_lag(false, false),
        resyncs ==> resyncs_after_lag(incremental, resyncs),
{
}

/// So many rows changed that the whole screen is sent.
pub open spec fn mostly_changed(dirty: DirtyView, height: nat) -> bool {
    dirty.rows.len() > height * 3 / 4
}

/// The rows of a client after it applied changed rows: each replaces the row at
/// its place, or comes behind the last.
pub open spec fn apply_rows(rows: Seq<RowView>, dirty: Seq<(int, RowView)>) -> Seq<RowView>
    decreases dirty.len(),
{
    if dirty.len() == 0 {
        rows
    } else {
        let before = apply_rows(rows, dirty.drop_last());
        let (index, row) = dirty.last();
        if index < before.len() {
            before.update(index, row)
        } else {
            before.push(row)
        }
    }
}

pub open spec fn replaced<A>(part: A, update: Option<A>) -> A {
    match update {
        Some(new_part) => new_part,
        None => part,
    }
}

/// What a client sees after it applied an incremental update.
pub open spec fn apply_difference(state: StateView, dirty: DirtyView) -> StateView {
    StateView {
        rows: apply_rows(state.rows, dirty.rows),
        cursor: replaced(state.cursor, dirty.cursor),
        modes: replaced(state.modes, dirty.modes),
        images: replaced(state.images, dirty.images),
        extra_cursors: replaced(state.extra_cursors, dirty.extra_cursors),
    }
}

proof fn lemma_apply_changed_rows(old_rows: Seq<RowView>, new_rows: Seq<RowView>, count: nat)
    requires
        count <= new_rows.len(),
    ensures
        ({
            let applied = apply_rows(old_rows, changed_rows(old_rows, new_rows, count));
            &&& applied.len() == if count > old_rows.len() {
                count as int
            } else {
                old_rows.len() as int
            }
            &&& forall|i: int| 0 <= i < count ==> #[trigger] applied[i] == new_rows[i]
            &&& forall|i: int|
                count <= i < old_rows.len() ==> #[trigger] applied[i] == old_rows[i]
        }),
    decreases count,
{
    if count > 0 {
        let last = (count - 1) as nat;
        lemma_apply_changed_rows(old_rows, new_rows, last);
        let head = changed_rows(old_rows, new_rows, last);
        let all = changed_rows(old_rows, new_rows, count);
        if row_changed(old_rows, new_rows, count - 1) {
            assert(all.drop_last() =~= head);
        }
    }
}

/// A client that applies the difference sees the new screen, unless the screen
/// lost rows: an incremental update names the rows that changed, not how many
/// there are.
pub proof fn law_difference_takes_client_along(old_state: StateView, new_state: StateView)
    requires
        new_state.rows.len() >= old_state.rows.len(),
    ensures
        apply_difference(old_state, difference(old_state, new_state)) == new_state,
{
    lemma_apply_changed_rows(old_state.rows, new_state.rows, new_state.rows.len());
    assert(apply_difference(old_state, difference(old_state, new_state)).rows =~= new_state.rows);
}

/// Where the difference is empty, the client already sees the new screen, again
/// unless the screen lost rows.
pub proof fn law_empty_difference_means_no_change(old_state: StateView, new_state: StateView)
    requires
        new_state.rows.len() >= old_state.rows.len(),
        is_empty_difference(difference(old_state, new_state)),
    ensures
        new_state == old_state,
{
    law_difference_takes_client_along(old_state, new_state);
    assert(difference(old_state, new_state).rows =~= Seq::empty());
}

/// The stream of updates to one client.
#[derive(Debug)]
pub struct ScreenStream {
    session_id: String,
    incremental: bool,
    sequence: u64,
    /// What the client was last told, in incremental mode.
    cached: ScreenState,
    /// After a lag event, force a full screen resync.
    needs_full_resync: bool,
}

impl ScreenStream {
    pub closed spec fn spec_session_id(&self) -> Seq<char> {
        self.session_id@
    }

    pub closed spec fn is_incremental(&self) -> bool {
        self.incremental
    }

    /// The number of the last update.
    pub closed spec fn spec_sequence(&self) -> u64 {
        self.sequence
    }

    /// What the client was last told, in incremental mode.
    pub closed spec fn told(&self) -> StateView {
        self.cached@
    }

    pub closed spec fn resyncs(&self) -> bool {
        self.needs_full_resync
    }

    /// The stream keeps its session and its mode.
    pub open spec fn same_stream(&self, other: &ScreenStream) -> bool {
        &&& self.spec_session_id() == other.spec_session_id()
        &&& self.is_incremental() == other.is_incremental()
    }

    /// Starts a stream for a client that sees `current`.
    pub fn new(session_id: String, incremental: bool, current: &ScreenState) -> (stream: ScreenStream)
        ensures
            stream.spec_session_id() == session_id@,
            stream.is_incremental() == incremental,
            stream.spec_sequence() == 0,
            incremental ==> stream.told() == current@,
            !stream.resyncs(),
    {
        let cached = if incremental {
            current.duplicate()
        } else {
            ScreenState {
                rows: Vec::new(),
                cursor: Vec::new(),
                modes: Vec::new(),
                images: Vec::new(),
                extra_cursors: Vec::new(),
            }
        };
        ScreenStream { session_id, incremental, sequence: 0, cached, needs_full_resync: false }
    }

    /// Events were lost: an incremental client gets the whole screen next.
    pub fn lagged(&mut self)
        ensures
            final(self).same_stream(old(self)),
            final(self).spec_sequence() == old(self).spec_sequence(),
            final(self).told() == old(self).told(),
            final(self).resyncs() == resyncs_after_lag(
                old(self).is_incremental(),
                old(self).resyncs(),
            ),
    {
        if self.incremental {
            self.needs_full_resync = true;
        }
    }

    /// The title changed.
    pub fn title_changed(&mut self, title: String) -> (update: ScreenUpdate)
        requires
            old(self).spec_sequence() < u64::MAX,
        ensures
            final(self).same_stream(old(self)),
            final(self).spec_sequence() == old(self).spec_sequence() + 1,
            final(self).told() == old(self).told(),
            final(self).resyncs() == old(self).resyncs(),
            update.session_id@ == old(self).spec_session_id(),
            update.sequence == old(self).spec_sequence() + 1,
            update.update_type == UpdateType::Title(title),
    {
        self.sequence = self.sequence + 1;
        ScreenUpdate {
            session_id: self.session_id.clone(),
            sequence: self.sequence,
            update_type: UpdateType::Title(title),
        }
    }

    /// The content changed: what to tell the client, if anything. `current` is the
    /// whole screen.
    pub fn content_changed(&mut self, current: FullScreen) -> (update: Option<ScreenUpdate>)
        requires
            old(self).spec_sequence() < u64::MAX,
        ensures
            final(self).same_stream(old(self)),
            final(self).spec_sequence() == old(self).spec_sequence() + 1,
            old(self).is_incremental() ==> final(self).told() == current.state@
                && !final(self).resyncs(),
            !old(self).is_incremental() ==> final(self).told() == old(self).told()
                && final(self).resyncs() == old(self).resyncs(),
            update matches Some(update) ==> update.session_id@ == old(self).spec_session_id()
                && update.sequence == final(self).spec_sequence(),
            ({
                let dirty = difference(old(self).told(), current.state@);
                if whole_due(old(self).is_incremental(), old(self).resyncs()) {
                    &&& update matches Some(update)
                    &&& update.update_type == UpdateType::FullScreen(current)
                } else if is_empty_difference(dirty) {
                    update is None
                } else if mostly_changed(dirty, current.state@.rows.len()) {
                    &&& update matches Some(update)
                    &&& update.update_type matches UpdateType::FullScreen(screen)
                    &&& screen.state@ == current.state@
                    &&& screen.rows == current.state@.rows.len()
                    &&& screen.cols == if current.state@.rows.len() > 0 {
                        current.state@.rows[0].cells.len()
                    } else {
                        0
                    }
                    &&& screen.title@ == current.title@
                    &&& byte_lists(screen.drcs_fonts@) == byte_lists(current.drcs_fonts@)
                } else {
                    &&& update matches Some(update)
                    &&& update.update_type matches UpdateType::DirtyRows(rows)
                    &&& rows@ == dirty
                }
            }),
    {
        self.sequence = self.sequence + 1;
        if !self.incremental || self.needs_full_resync {
            if self.incremental {
                self.cached = current.state.duplicate();
                self.needs_full_resync = false;
            }
            return Some(
                ScreenUpdate {
                    session_id: self.session_id.clone(),
                    sequence: self.sequence,
                    update_type: UpdateType::FullScreen(current),
                },
            );
        }
        let ghost old_state = self.cached@;
        let ghost new_state = current.state@;
        let dirty_rows = find_dirty_rows(&self.cached.rows, &current.state.rows);
        let cursor_changed = !same_bytes(
            self.cached.cursor.as_slice(),
            current.state.cursor.as_slice(),
        );
        let modes_changed = !same_bytes(
            self.cached.modes.as_slice(),
            current.state.modes.as_slice(),
        );
        let images_changed = !same_lists(&self.cached.images, &current.state.images);
        let extra_cursors_changed = !same_bytes(
            self.cached.extra_cursors.as_slice(),
            current.state.extra_cursors.as_slice(),
        );
        self.cached = current.state.duplicate();
        if dirty_rows.len() == 0 && !cursor_changed && !modes_changed && !images_changed
            && !extra_cursors_changed {
            return None;
        }
        let height: usize = current.state.rows.len();
        let most: usize = (height / 4) * 3 + ((height % 4) * 3) / 4;
        proof {
            assert(most == height * 3 / 4) by (nonlinear_arith)
                requires
                    most == (height / 4) * 3 + ((height % 4) * 3) / 4,
                    height >= 0,
            ;
        }
        if dirty_rows.len() > most {
            let cols: usize = if height > 0 {
                current.state.rows[0].cells.len()
            } else {
                0
            };
            return Some(
                ScreenUpdate {
                    session_id: self.session_id.clone(),
                    sequence: self.sequence,
                    update_type: UpdateType::FullScreen(
                        FullScreen {
                            cols,
                            rows: height,
                            state: current.state,
                            title: current.title,
                            drcs_fonts: current.drcs_fonts,
                        },
                    ),
                },
            );
        }
        let cursor = if cursor_changed {
            Some(copy_bytes(&current.state.cursor))
        } else {
            None
        };
        let modes = if modes_changed {
            Some(copy_bytes(&current.state.modes))
        } else {
            None
        };
        let images = if images_changed {
            Some(copy_lists(&current.state.images))
        } else {
            None
        };
        let extra_cursors = if extra_cursors_changed {
            Some(copy_bytes(&current.state.extra_cursors))
        } else {
            None
        };
        Some(
            ScreenUpdate {
                session_id: self.session_id.clone(),
                sequence: self.sequence,
                update_type: UpdateType::DirtyRows(
                    DirtyRows { rows: dirty_rows, cursor, modes, images, extra_cursors },
                ),
            },
        )
    }
}

/// The rows that changed.
fn find_dirty_rows(old_rows: &Vec<Row>, new_rows: &Vec<Row>) -> (dirty: Vec<DirtyRow>)
    ensures
        dirty_views(dirty@) == changed_rows(
            row_views(old_rows@),
            row_views(new_rows@),
            new_rows@.len(),
        ),
{
    let ghost before = row_views(old_rows@);
    let ghost after = row_views(new_rows@);
    let mut dirty: Vec<DirtyRow> = Vec::new();
    let mut index: usize = 0;
    proof {
        assert(dirty_views(dirty@) =~= changed_rows(before, after, 0));
    }
    while index < new_rows.len()
        invariant
            index <= new_rows@.len(),
            before == row_views(old_rows@),
            after == row_views(new_rows@),
            dirty_views(dirty@) == changed_rows(before, after, index as nat),
        decreases new_rows@.len() - index,
    {
        let changed = if index >= old_rows.len() {
            true
        } else {
            !new_rows[index].same(&old_rows[index])
        };
        let ghost old_dirty = dirty@;
        if changed {
            let row = new_rows[index].duplicate();
            dirty.push(DirtyRow { row_index: index, row });
            proof {
                assert(dirty_views(dirty@) =~= dirty_views(old_dirty).push(
                    (index as int, after[index as int]),
                ));
            }
        }
        index += 1;
    }
    dirty
}

/// The whole screen is sent exactly if more than three quarters of its rows changed.
pub proof fn law_whole_screen_is_sent_for_most_rows(dirty: DirtyView, height: nat)
    ensures
        mostly_changed(dirty, height) <==> 4 * dirty.rows.len() > 3 * height,
{
}

/// A row is among the changed ones exactly if it differs from the row that the client has
/// in its place, or has none there; and then as it is now.
pub proof fn law_changed_rows_are_told(
    old_rows: Seq<RowView>,
    new_rows: Seq<RowView>,
    count: nat,
    index: int,
    row: RowView,
)
    requires
        count <= new_rows.len(),
    ensures
        changed_rows(old_rows, new_rows, count).contains((index, row)) <==> 0 <= index < count && row
            == new_rows[index] && (index >= old_rows.len() || old_rows[index] != row),
        changed_rows(old_rows, new_rows, count).len() <= count,
    decreases count,
{
    if count > 0 {
        let before = changed_rows(old_rows, new_rows, (count - 1) as nat);
        let all = changed_rows(old_rows, new_rows, count);
        law_changed_rows_are_told(old_rows, new_rows, (count - 1) as nat, index, row);
        if row_changed(old_rows, new_rows, count - 1) {
            assert(all =~= before.push((count - 1, new_rows[count - 1])));
            if all.contains((index, row)) {
                let i = choose|i: int| 0 <= i < all.len() && all[i] == (index, row);
                if i < before.len() {
                    assert(before[i] == (index, row));
                }
            }
            if before.contains((index, row)) {
                let i = choose|i: int| 0 <= i < before.len() && before[i] == (index, row);
                assert(all[i] == (index, row));
            }
            if index == count - 1 {
                assert(all[before.len() as int] == (count - 1, new_rows[count - 1]));
            }
        }
    }
}

} // verus!
