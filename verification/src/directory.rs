//! The channel directory and the logging-channel manager.
//!
//! `ChannelDirectory` holds the known channel rows of all guilds. `add`,
//! `remove` and `check_existing_log_channel` maintain the invariant that at
//! most one channel per guild is flagged as that guild's logging channel;
//! `autocomplete_channel` filters a guild's channel names by a typed prefix.

use crate::model::{
    directory_after_add, directory_after_remove, directory_wf, has_log_channel, is_log_row,
    lemma_add_preserves_wf, lemma_remove_preserves_wf, matching_names, row_matches,
    rows_after_clear, rows_after_set, with_flag_cleared, with_flag_set, ChannelView,
};
use crate::response::{AddOutcome, RemoveOutcome};
use crate::text::starts_with_partial;
use vstd::prelude::*;

verus! {

/// One row of the channel directory: a channel known to belong to a guild,
/// possibly designated as that guild's logging channel.
pub struct Channel {
    pub guild_id: i64,
    pub channel_id: i64,
    pub channel_name: String,
    pub logging_channel: bool,
}

impl View for Channel {
    type V = ChannelView;

    open spec fn view(&self) -> ChannelView {
        ChannelView {
            guild_id: self.guild_id as int,
            channel_id: self.channel_id as int,
            channel_name: self.channel_name@,
            logging_channel: self.logging_channel,
        }
    }
}

impl Clone for Channel {
    fn clone(&self) -> (r: Self)
        ensures
            r@ == self@,
    {
        Channel {
            guild_id: self.guild_id,
            channel_id: self.channel_id,
            channel_name: self.channel_name.clone(),
            logging_channel: self.logging_channel,
        }
    }
}

/// The directory of known channels, shared by all guilds.
pub struct ChannelDirectory {
    rows: Vec<Channel>,
}

impl View for ChannelDirectory {
    type V = Seq<ChannelView>;

    closed spec fn view(&self) -> Seq<ChannelView> {
        self.rows@.map_values(|row: Channel| row@)
    }
}

impl ChannelDirectory {
    /// The directory invariant: channel ids unique per guild, and at most
    /// one logging channel per guild.
    pub open spec fn wf(&self) -> bool {
        directory_wf(self@)
    }

    /// An empty directory.
    pub fn new() -> (d: ChannelDirectory)
        ensures
            d@ == Seq::<ChannelView>::empty(),
            d.wf(),
    {
        let d = ChannelDirectory { rows: Vec::new() };
        proof {
            assert(d@ =~= Seq::<ChannelView>::empty());
        }
        d
    }

    /// The single channel registered as the logging channel of `guild_id`,
    /// or nothing when none is registered. Were the invariant ever violated,
    /// this returns an arbitrary one of the flagged rows.
    pub fn check_existing_log_channel(&self, guild_id: i64) -> (r: Option<Channel>)
        ensures
            match r {
                Some(c) => is_log_row(c@, guild_id as int) && exists|i: int|
                    0 <= i < self@.len() && self@[i] == c@,
                None => !has_log_channel(self@, guild_id as int),
            },
    {
        let n = self.rows.len();
        let mut i: usize = 0;
        while i < n
            invariant
                0 <= i <= n,
                n == self@.len(),
                forall|j: int| 0 <= j < i ==> !is_log_row(self@[j], guild_id as int),
            decreases n - i,
        {
            let row = &self.rows[i];
            if row.guild_id == guild_id && row.logging_channel {
                let found = row.clone();
                assert(self@[i as int] == found@);
                return Some(found);
            }
            i += 1;
        }
        None
    }

    /// Record a channel synced from the platform: a fresh row, not flagged.
    /// Nothing is added when the channel is already known; the result says
    /// whether a row was appended.
    pub fn sync_channel(&mut self, guild_id: i64, channel_id: i64, channel_name: String) -> (
        added: bool)
        requires
            old(self).wf(),
        ensures
            final(self).wf(),
            added == !(exists|i: int|
                0 <= i < old(self)@.len() && row_matches(
                    old(self)@[i],
                    guild_id as int,
                    channel_id as int,
                )),
            added ==> final(self)@ == old(self)@.push(
                ChannelView {
                    guild_id: guild_id as int,
                    channel_id: channel_id as int,
                    channel_name: channel_name@,
                    logging_channel: false,
                },
            ),
            !added ==> final(self)@ == old(self)@,
    {
        let n = self.rows.len();
        let mut i: usize = 0;
        while i < n
            invariant
                0 <= i <= n,
                n == self@.len(),
                self@ == old(self)@,
                old(self).wf(),
                forall|j: int|
                    0 <= j < i ==> !row_matches(self@[j], guild_id as int, channel_id as int),
            decreases n - i,
        {
            let row = &self.rows[i];
            if row.guild_id == guild_id && row.channel_id == channel_id {
                proof {
                    assert(row_matches(old(self)@[i as int], guild_id as int, channel_id as int));
                }
                return false;
            }
            i += 1;
        }
        let row = Channel { guild_id, channel_id, channel_name, logging_channel: false };
        let ghost pre = self@;
        self.rows.push(row);
        proof {
            assert(self@ =~= pre.push(row@));
            assert forall|a: int, b: int|
                0 <= a < b < self@.len() && self@[a].guild_id == self@[b].guild_id implies (
            self@[a].channel_id != self@[b].channel_id && !(self@[a].logging_channel
                && self@[b].logging_channel)) by {
                if b < pre.len() {
                    assert(self@[a] == pre[a] && self@[b] == pre[b]);
                }
            }
        }
        true
    }

    /// Deregister the guild's logging channel: the flag of every row of the
    /// guild is cleared. The outcome reports whether a flagged row was
    /// actually cleared.
    pub fn remove(&mut self, guild_id: i64) -> (outcome: RemoveOutcome)
        requires
            old(self).wf(),
        ensures
            final(self).wf(),
            final(self)@ == directory_after_remove(old(self)@, guild_id as int),
            match outcome {
                RemoveOutcome::Removed { rows_affected } => has_log_channel(
                    old(self)@,
                    guild_id as int,
                ) && rows_affected == 1,
                RemoveOutcome::NothingToRemove => !has_log_channel(old(self)@, guild_id as int),
            },
    {
        let n = self.rows.len();
        let mut affected: u64 = 0;
        let mut i: usize = 0;
        while i < n
            invariant
                0 <= i <= n,
                n == self@.len(),
                self@.len() == old(self)@.len(),
                directory_wf(old(self)@),
                forall|j: int|
                    0 <= j < i ==> self@[j] == (if old(self)@[j].guild_id == guild_id as int {
                        with_flag_cleared(old(self)@[j])
                    } else {
                        old(self)@[j]
                    }),
                forall|j: int| i <= j < n ==> self@[j] == old(self)@[j],
                (affected == 1) <==> (exists|j: int|
                    0 <= j < i && is_log_row(old(self)@[j], guild_id as int)),
                affected <= 1,
            decreases n - i,
        {
            let ghost pre = self@;
            let hit = self.rows[i].guild_id == guild_id && self.rows[i].logging_channel;
            if hit {
                proof {
                    assert(is_log_row(old(self)@[i as int], guild_id as int));
                    if affected == 1 {
                        let w = choose|j: int|
                            0 <= j < i && is_log_row(old(self)@[j], guild_id as int);
                        assert(is_log_row(old(self)@[w], guild_id as int));
                        assert(false);
                    }
                }
                self.rows[i].logging_channel = false;
                affected = affected + 1;
            }
            proof {
                assert forall|j: int| 0 <= j <= i as int implies self@[j] == (if old(
                self,
                )@[j].guild_id == guild_id as int {
                    with_flag_cleared(old(self)@[j])
                } else {
                    old(self)@[j]
                }) by {
                    if hit {
                        if j < i as int {
                            assert(self@[j] == pre[j]);
                        } else {
                            assert(self@[j] == with_flag_cleared(old(self)@[j]));
                        }
                    } else {
                        assert(self@[j] == pre[j]);
                        if j == i as int && old(self)@[j].guild_id == guild_id as int {
                            assert(!old(self)@[j].logging_channel);
                        }
                    }
                }
            }
            i += 1;
        }
        proof {
            assert(self@ =~= rows_after_clear(old(self)@, guild_id as int));
            lemma_remove_preserves_wf(old(self)@, guild_id as int);
        }
        if affected == 0 {
            RemoveOutcome::NothingToRemove
        } else {
            RemoveOutcome::Removed { rows_affected: affected }
        }
    }

    /// Register `channel_id` as the guild's logging channel. When the guild
    /// already has one, nothing changes and the outcome names the existing
    /// channel; otherwise the flag is raised on the row matching
    /// `(guild_id, channel_id)`, and the outcome carries how many rows that
    /// touched (0 when the channel is unknown to the directory).
    pub fn add(&mut self, guild_id: i64, channel_id: i64) -> (outcome: AddOutcome)
        requires
            old(self).wf(),
        ensures
            final(self).wf(),
            final(self)@ == directory_after_add(old(self)@, guild_id as int, channel_id as int),
            match outcome {
                AddOutcome::AlreadyRegistered { existing } => {
                    &&& has_log_channel(old(self)@, guild_id as int)
                    &&& is_log_row(existing@, guild_id as int)
                    &&& exists|i: int| 0 <= i < old(self)@.len() && old(self)@[i] == existing@
                },
                AddOutcome::Registered { rows_affected } => {
                    &&& !has_log_channel(old(self)@, guild_id as int)
                    &&& rows_affected <= 1
                    &&& (rows_affected == 1 <==> exists|i: int|
                        0 <= i < old(self)@.len() && row_matches(
                            old(self)@[i],
                            guild_id as int,
                            channel_id as int,
                        ))
                },
            },
    {
        match self.check_existing_log_channel(guild_id) {
            Some(existing) => {
                proof {
                    let w = choose|i: int| 0 <= i < self@.len() && self@[i] == existing@;
                    assert(is_log_row(self@[w], guild_id as int));
                    assert(has_log_channel(self@, guild_id as int));
                }
                return AddOutcome::AlreadyRegistered { existing };
            },
            None => {},
        }
        let n = self.rows.len();
        let mut affected: u64 = 0;
        let mut i: usize = 0;
        while i < n
            invariant
                0 <= i <= n,
                n == self@.len(),
                self@.len() == old(self)@.len(),
                directory_wf(old(self)@),
                !has_log_channel(old(self)@, guild_id as int),
                forall|j: int|
                    0 <= j < i ==> self@[j] == (if row_matches(
                        old(self)@[j],
                        guild_id as int,
                        channel_id as int,
                    ) {
                        with_flag_set(old(self)@[j])
                    } else {
                        old(self)@[j]
                    }),
                forall|j: int| i <= j < n ==> self@[j] == old(self)@[j],
                (affected == 1) <==> (exists|j: int|
                    0 <= j < i && row_matches(old(self)@[j], guild_id as int, channel_id as int)),
                affected <= 1,
            decreases n - i,
        {
            let ghost pre = self@;
            let hit = self.rows[i].guild_id == guild_id && self.rows[i].channel_id == channel_id;
            if hit {
                proof {
                    assert(row_matches(old(self)@[i as int], guild_id as int, channel_id as int));
                    if affected == 1 {
                        let w = choose|j: int|
                            0 <= j < i && row_matches(
                                old(self)@[j],
                                guild_id as int,
                                channel_id as int,
                            );
                        assert(row_matches(old(self)@[w], guild_id as int, channel_id as int));
                        assert(false);
                    }
                }
                self.rows[i].logging_channel = true;
                affected = affected + 1;
            }
            proof {
                assert forall|j: int| 0 <= j <= i as int implies self@[j] == (if row_matches(
                    old(self)@[j],
                    guild_id as int,
                    channel_id as int,
                ) {
                    with_flag_set(old(self)@[j])
                } else {
                    old(self)@[j]
                }) by {
                    if hit {
                        if j < i as int {
                            assert(self@[j] == pre[j]);
                        } else {
                            assert(self@[j] == with_flag_set(old(self)@[j]));
                        }
                    } else {
                        assert(self@[j] == pre[j]);
                    }
                }
            }
            i += 1;
        }
        proof {
            assert(self@ =~= rows_after_set(old(self)@, guild_id as int, channel_id as int));
            lemma_add_preserves_wf(old(self)@, guild_id as int, channel_id as int);
        }
        AddOutcome::Registered { rows_affected: affected }
    }

    /// Candidate channel names for the `channel` argument while the user is
    /// typing: the names of the guild's channels that start with `partial`,
    /// in directory order. An empty `partial` matches every name.
    pub fn autocomplete_channel(&self, guild_id: i64, partial: &str) -> (names: Vec<String>)
        ensures
            names@.map_values(|n: String| n@) == matching_names(
                self@,
                guild_id as int,
                partial@,
            ),
    {
        let n = self.rows.len();
        let mut names: Vec<String> = Vec::new();
        let mut i: usize = 0;
        proof {
            assert(self@.take(0) =~= Seq::<ChannelView>::empty());
            assert(names@.map_values(|m: String| m@) =~= matching_names(
                self@.take(0),
                guild_id as int,
                partial@,
            ));
        }
        while i < n
            invariant
                0 <= i <= n,
                n == self@.len(),
                names@.map_values(|m: String| m@) == matching_names(
                    self@.take(i as int),
                    guild_id as int,
                    partial@,
                ),
            decreases n - i,
        {
            let ghost seen = self@.take(i as int);
            proof {
                assert(self@.take(i as int + 1).drop_last() =~= seen);
                assert(self@.take(i as int + 1).last() == self@[i as int]);
            }
            let row = &self.rows[i];
            if row.guild_id == guild_id && starts_with_partial(&row.channel_name, partial) {
                let ghost before = names@;
                names.push(row.channel_name.clone());
                proof {
                    assert(names@.map_values(|m: String| m@) =~= before.map_values(
                        |m: String| m@,
                    ).push(row.channel_name@));
                }
            }
            i += 1;
        }
        proof {
            assert(self@.take(n as int) =~= self@);
        }
        names
    }

    /// The rows of the directory, in order.
    pub fn rows(&self) -> (r: &Vec<Channel>)
        ensures
            r@.map_values(|row: Channel| row@) == self@,
    {
        &self.rows
    }
}

} // verus!
