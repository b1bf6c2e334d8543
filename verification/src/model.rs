//! Mathematical model of the channel directory.
//!
//! A directory is a sequence of channel rows. The well-formedness invariant
//! says that channel ids are unique within a guild and that at most one row
//! per guild is flagged as the logging channel. The transition functions
//! below say exactly how registering (`directory_after_add`) and
//! deregistering (`directory_after_remove`) a logging channel rewrite the
//! sequence; the executable operations promise to realize them.

use vstd::prelude::*;

verus! {

/// One row of the channel directory, as the specifications see it.
pub ghost struct ChannelView {
    pub guild_id: int,
    pub channel_id: int,
    pub channel_name: Seq<char>,
    pub logging_channel: bool,
}

/// `row` is the channel `channel_id` of guild `guild_id`.
pub open spec fn row_matches(row: ChannelView, guild_id: int, channel_id: int) -> bool {
    row.guild_id == guild_id && row.channel_id == channel_id
}

/// `row` is the logging channel registered for `guild_id`.
pub open spec fn is_log_row(row: ChannelView, guild_id: int) -> bool {
    row.guild_id == guild_id && row.logging_channel
}

/// Some row of `rows` is the logging channel registered for `guild_id`.
pub open spec fn has_log_channel(rows: Seq<ChannelView>, guild_id: int) -> bool {
    exists|i: int| 0 <= i < rows.len() && is_log_row(rows[i], guild_id)
}

/// Channel ids are unique within each guild.
pub open spec fn unique_channel_ids(rows: Seq<ChannelView>) -> bool {
    forall|i: int, j: int|
        0 <= i < j < rows.len() && rows[i].guild_id == rows[j].guild_id
            ==> rows[i].channel_id != rows[j].channel_id
}

/// At most one row per guild carries the logging flag.
pub open spec fn at_most_one_log_channel(rows: Seq<ChannelView>) -> bool {
    forall|i: int, j: int|
        0 <= i < j < rows.len() && rows[i].guild_id == rows[j].guild_id
            ==> !(rows[i].logging_channel && rows[j].logging_channel)
}

/// Well-formedness of the whole directory.
pub open spec fn directory_wf(rows: Seq<ChannelView>) -> bool {
    unique_channel_ids(rows) && at_most_one_log_channel(rows)
}

/// `row` with its logging flag raised.
pub open spec fn with_flag_set(row: ChannelView) -> ChannelView {
    ChannelView { logging_channel: true, ..row }
}

/// `row` with its logging flag cleared.
pub open spec fn with_flag_cleared(row: ChannelView) -> ChannelView {
    ChannelView { logging_channel: false, ..row }
}

/// Every row matching `(guild_id, channel_id)` gets its flag raised;
/// all other rows are untouched.
pub open spec fn rows_after_set(
    rows: Seq<ChannelView>,
    guild_id: int,
    channel_id: int,
) -> Seq<ChannelView> {
    rows.map_values(
        |row: ChannelView|
            if row_matches(row, guild_id, channel_id) {
                with_flag_set(row)
            } else {
                row
            },
    )
}

/// Every row of the guild gets its flag cleared; other guilds are untouched.
pub open spec fn rows_after_clear(rows: Seq<ChannelView>, guild_id: int) -> Seq<ChannelView> {
    rows.map_values(
        |row: ChannelView|
            if row.guild_id == guild_id {
                with_flag_cleared(row)
            } else {
                row
            },
    )
}

/// The directory after an `add` of `(guild_id, channel_id)`: unchanged when
/// the guild already has a logging channel, otherwise the matching row is
/// flagged.
pub open spec fn directory_after_add(
    rows: Seq<ChannelView>,
    guild_id: int,
    channel_id: int,
) -> Seq<ChannelView> {
    if has_log_channel(rows, guild_id) {
        rows
    } else {
        rows_after_set(rows, guild_id, channel_id)
    }
}

/// The directory after a `remove` for `guild_id`.
pub open spec fn directory_after_remove(rows: Seq<ChannelView>, guild_id: int) -> Seq<
    ChannelView,
> {
    rows_after_clear(rows, guild_id)
}

/// The names of the guild's channels that start with `partial`, in
/// directory order: what autocompletion offers for a typed prefix.
pub open spec fn matching_names(
    rows: Seq<ChannelView>,
    guild_id: int,
    partial: Seq<char>,
) -> Seq<Seq<char>>
    decreases rows.len(),
{
    if rows.len() == 0 {
        Seq::empty()
    } else {
        let front = matching_names(rows.drop_last(), guild_id, partial);
        if rows.last().guild_id == guild_id && partial.is_prefix_of(rows.last().channel_name) {
            front.push(rows.last().channel_name)
        } else {
            front
        }
    }
}

/// All the names of the guild's channels, in directory order.
pub open spec fn guild_channel_names(rows: Seq<ChannelView>, guild_id: int) -> Seq<Seq<char>>
    decreases rows.len(),
{
    if rows.len() == 0 {
        Seq::empty()
    } else {
        let front = guild_channel_names(rows.drop_last(), guild_id);
        if rows.last().guild_id == guild_id {
            front.push(rows.last().channel_name)
        } else {
            front
        }
    }
}

/// Registering a logging channel preserves the directory invariant.
pub proof fn lemma_add_preserves_wf(rows: Seq<ChannelView>, guild_id: int, channel_id: int)
    requires
        directory_wf(rows),
    ensures
        directory_wf(directory_after_add(rows, guild_id, channel_id)),
{
    if !has_log_channel(rows, guild_id) {
        let post = rows_after_set(rows, guild_id, channel_id);
        assert forall|i: int, j: int|
            0 <= i < j < post.len() && post[i].guild_id == post[j].guild_id implies post[i].channel_id
            != post[j].channel_id && !(post[i].logging_channel && post[j].logging_channel) by {
            assert(rows[i].guild_id == post[i].guild_id && rows[i].channel_id
                == post[i].channel_id);
            assert(rows[j].guild_id == post[j].guild_id && rows[j].channel_id
                == post[j].channel_id);
            if post[i].logging_channel && post[j].logging_channel {
                if rows[i].logging_channel {
                    assert(is_log_row(rows[i], rows[i].guild_id));
                }
                if rows[j].logging_channel {
                    assert(is_log_row(rows[j], rows[j].guild_id));
                }
            }
        }
    }
}

/// Deregistering preserves the directory invariant.
pub proof fn lemma_remove_preserves_wf(rows: Seq<ChannelView>, guild_id: int)
    requires
        directory_wf(rows),
    ensures
        directory_wf(directory_after_remove(rows, guild_id)),
{
    let post = directory_after_remove(rows, guild_id);
    assert forall|i: int, j: int|
        0 <= i < j < post.len() && post[i].guild_id == post[j].guild_id implies post[i].channel_id
        != post[j].channel_id && !(post[i].logging_channel && post[j].logging_channel) by {
        assert(rows[i].guild_id == post[i].guild_id && rows[i].channel_id == post[i].channel_id);
        assert(rows[j].guild_id == post[j].guild_id && rows[j].channel_id == post[j].channel_id);
    }
}

/// Law: when the guild already has a logging channel, an `add` leaves the
/// directory exactly as it was.
pub proof fn lemma_add_conflict_unchanged(rows: Seq<ChannelView>, guild_id: int, channel_id: int)
    requires
        has_log_channel(rows, guild_id),
    ensures
        directory_after_add(rows, guild_id, channel_id) == rows,
{
}

/// Law: when the guild has no logging channel, an `add` raises the flag of
/// exactly the requested channel: the matching row comes out flagged, every
/// other row of the guild stays unflagged, and rows of other guilds are
/// untouched.
pub proof fn lemma_add_sets_only_target(rows: Seq<ChannelView>, guild_id: int, channel_id: int)
    requires
        directory_wf(rows),
        !has_log_channel(rows, guild_id),
    ensures
        ({
            let post = directory_after_add(rows, guild_id, channel_id);
            &&& post.len() == rows.len()
            &&& forall|i: int|
                0 <= i < rows.len() && rows[i].guild_id == guild_id && rows[i].channel_id
                    == channel_id ==> post[i].logging_channel
            &&& forall|i: int|
                0 <= i < rows.len() && rows[i].guild_id == guild_id && rows[i].channel_id
                    != channel_id ==> !post[i].logging_channel
            &&& forall|i: int| 0 <= i < rows.len() && rows[i].guild_id != guild_id ==> post[i]
                == rows[i]
        }),
{
    let post = directory_after_add(rows, guild_id, channel_id);
    assert forall|i: int|
        0 <= i < rows.len() && rows[i].guild_id == guild_id && rows[i].channel_id
            != channel_id implies !post[i].logging_channel by {
        if rows[i].logging_channel {
            assert(is_log_row(rows[i], guild_id));
        }
    }
}

/// Law: a `remove` leaves the guild with no logging channel and does not
/// touch the rows of other guilds.
pub proof fn lemma_remove_clears_guild(rows: Seq<ChannelView>, guild_id: int)
    ensures
        !has_log_channel(directory_after_remove(rows, guild_id), guild_id),
        forall|i: int|
            0 <= i < rows.len() && rows[i].guild_id != guild_id ==> directory_after_remove(
                rows,
                guild_id,
            )[i] == rows[i],
{
    let post = directory_after_remove(rows, guild_id);
    assert forall|i: int| 0 <= i < post.len() implies !is_log_row(post[i], guild_id) by {}
}

/// Law: deregistering twice is the same as deregistering once; the second
/// `remove` finds nothing to clear.
pub proof fn lemma_remove_idempotent(rows: Seq<ChannelView>, guild_id: int)
    ensures
        directory_after_remove(directory_after_remove(rows, guild_id), guild_id)
            == directory_after_remove(rows, guild_id),
{
    let once = directory_after_remove(rows, guild_id);
    assert(directory_after_remove(once, guild_id) =~= once);
}

/// Law: with an empty partial string, autocompletion offers every channel
/// name of the guild.
pub proof fn lemma_autocomplete_empty_partial(rows: Seq<ChannelView>, guild_id: int)
    ensures
        matching_names(rows, guild_id, Seq::<char>::empty()) == guild_channel_names(
            rows,
            guild_id,
        ),
    decreases rows.len(),
{
    if rows.len() > 0 {
        lemma_autocomplete_empty_partial(rows.drop_last(), guild_id);
        assert(Seq::<char>::empty() =~= rows.last().channel_name.subrange(0, 0));
        assert(Seq::<char>::empty().is_prefix_of(rows.last().channel_name));
    }
}

} // verus!
