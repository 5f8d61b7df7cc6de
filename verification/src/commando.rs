//! Packing a hook's files into shell commands that respect the platform's
//! limit on the length of a command, and judging what the commands gave.

use crate::helpers::{all_shell_quoted, quote_word, shell_quoted};
use crate::run_hook::RunHookResult;
use crate::text::{byte_len, join2, join3, joined, lemma_byte_len_concat, push_text};
use vstd::multiset::Multiset;
use vstd::prelude::*;
use vstd::string::*;
use vstd::utf8::*;

verus! {

/// The longest command line, in bytes, that a POSIX system is given.
pub const MAX_COMMAND_LENGTH: usize = 131_072;

/// The longest command line, in bytes, that Windows takes; for reference.
pub const MAX_COMMAND_LENGTH_WINDOWS: usize = 8192;

/// The bytes that a batch of quoted names adds to a command: each name and
/// one space.
pub open spec fn spaced_len(batch: Seq<Seq<char>>) -> nat
    decreases batch.len(),
{
    if batch.len() == 0 {
        0
    } else {
        spaced_len(batch.drop_last()) + byte_len(batch.last()) + 1
    }
}

/// The state of greedy packing: the batches that are closed, the batch
/// that is being filled, and the bytes that it adds to a command.
pub struct Packing {
    pub closed: Seq<Seq<Seq<char>>>,
    pub current: Seq<Seq<char>>,
    pub current_len: nat,
}

/// Greedy packing of quoted names, in order. A name goes into the current
/// batch as long as the command stays under the limit: `reserve` bytes for
/// the command's prefix and its space, then each name with one space. The
/// name with which the limit would be reached closes the current batch
/// (which may be empty) and starts the next one.
pub open spec fn packed(reserve: nat, quoted: Seq<Seq<char>>, limit: nat) -> Packing
    decreases quoted.len(),
{
    if quoted.len() == 0 {
        Packing { closed: Seq::empty(), current: Seq::empty(), current_len: 0 }
    } else {
        let before = packed(reserve, quoted.drop_last(), limit);
        let name = quoted.last();
        let this_len = byte_len(name) + 1;
        if reserve + before.current_len + this_len >= limit {
            Packing {
                closed: before.closed.push(before.current),
                current: seq![name],
                current_len: this_len,
            }
        } else {
            Packing {
                closed: before.closed,
                current: before.current.push(name),
                current_len: before.current_len + this_len,
            }
        }
    }
}

/// The batches that greedy packing gives: the closed ones, and the last one
/// where it is not empty.
pub open spec fn greedy_batches(reserve: nat, quoted: Seq<Seq<char>>, limit: nat) -> Seq<
    Seq<Seq<char>>,
> {
    let p = packed(reserve, quoted, limit);
    if p.current.len() > 0 {
        p.closed.push(p.current)
    } else {
        p.closed
    }
}

/// All names of a list of batches, batch after batch.
pub open spec fn concat_all(batches: Seq<Seq<Seq<char>>>) -> Seq<Seq<char>>
    decreases batches.len(),
{
    if batches.len() == 0 {
        Seq::empty()
    } else {
        concat_all(batches.drop_last()) + batches.last()
    }
}

/// A name fits into a command of its own.
pub open spec fn fits_alone(reserve: nat, name: Seq<char>, limit: nat) -> bool {
    reserve + byte_len(name) + 1 < limit
}

/// A batch keeps its command under the limit.
pub open spec fn batch_fits(reserve: nat, batch: Seq<Seq<char>>, limit: nat) -> bool {
    reserve + spaced_len(batch) < limit
}

/// What greedy packing promises of a batch: it is empty, or it keeps its
/// command under the limit, or it holds a single name that is too long for
/// any command.
pub open spec fn batch_ok(reserve: nat, batch: Seq<Seq<char>>, limit: nat) -> bool {
    ||| batch.len() == 0
    ||| batch_fits(reserve, batch, limit)
    ||| batch.len() == 1 && !fits_alone(reserve, batch[0], limit)
}

/// Greedy packing keeps every name, in order, and each of its batches is as
/// [`batch_ok`] says.
proof fn lemma_packed(reserve: nat, quoted: Seq<Seq<char>>, limit: nat)
    ensures
        ({
            let p = packed(reserve, quoted, limit);
            &&& concat_all(p.closed) + p.current == quoted
            &&& p.current_len == spaced_len(p.current)
            &&& batch_ok(reserve, p.current, limit)
            &&& forall|i: int| 0 <= i < p.closed.len() ==> batch_ok(reserve, #[trigger] p.closed[i], limit)
            &&& quoted.len() > 0 ==> p.current.len() > 0
        }),
    decreases quoted.len(),
{
    let p = packed(reserve, quoted, limit);
    if quoted.len() == 0 {
        assert(concat_all(p.closed) + p.current =~= quoted);
    } else {
        let before = packed(reserve, quoted.drop_last(), limit);
        lemma_packed(reserve, quoted.drop_last(), limit);
        let name = quoted.last();
        assert(quoted =~= quoted.drop_last().push(name));
        if reserve + before.current_len + byte_len(name) + 1 >= limit {
            assert(p.closed.drop_last() =~= before.closed);
            assert(p.closed.last() == before.current);
            assert(concat_all(p.closed) + p.current =~= quoted);
            assert(p.current.drop_last() =~= Seq::<Seq<char>>::empty());
            assert(spaced_len(p.current) == byte_len(name) + 1) by {
                assert(spaced_len(p.current.drop_last()) == 0);
            }
            assert forall|i: int| 0 <= i < p.closed.len() implies batch_ok(
                reserve,
                #[trigger] p.closed[i],
                limit,
            ) by {
                if i < before.closed.len() {
                    assert(p.closed[i] == before.closed[i]);
                }
            }
            if before.current.len() == 0 {
                assert(before.current_len == 0);
            }
        } else {
            assert(concat_all(p.closed) + p.current =~= quoted);
            assert(p.current.drop_last() =~= before.current);
        }
    }
}

/// Greedy packing keeps every name, in order: the batches, one after the
/// other, are the input.
pub proof fn lemma_greedy_keeps_order(reserve: nat, quoted: Seq<Seq<char>>, limit: nat)
    ensures
        concat_all(greedy_batches(reserve, quoted, limit)) == quoted,
        forall|i: int|
            0 <= i < greedy_batches(reserve, quoted, limit).len() ==> batch_ok(
                reserve,
                #[trigger] greedy_batches(reserve, quoted, limit)[i],
                limit,
            ),
{
    lemma_packed(reserve, quoted, limit);
    let p = packed(reserve, quoted, limit);
    let g = greedy_batches(reserve, quoted, limit);
    if p.current.len() > 0 {
        assert(g.drop_last() =~= p.closed);
        assert(g.last() == p.current);
        assert forall|i: int| 0 <= i < g.len() implies batch_ok(reserve, #[trigger] g[i], limit) by {
            if i < p.closed.len() {
                assert(g[i] == p.closed[i]);
            }
        }
    } else {
        assert(concat_all(p.closed) + p.current =~= concat_all(p.closed));
    }
}

/// Quotes each file name for the shell and packs the quoted names greedily
/// into batches, so that a command of `reserve_size` bytes followed by the
/// names of one batch, each with a space, stays under `limit` bytes. A name
/// that is too long for any command gets a batch of its own. The first
/// batch is empty where the first name is such a name.
pub fn get_quoted_filenames(reserve_size: usize, files: &Vec<String>, limit: usize) -> (r: Vec<
    Vec<String>,
>)
    ensures
        r.deep_view() == greedy_batches(
            reserve_size as nat,
            all_shell_quoted(files.deep_view()),
            limit as nat,
        ),
        concat_all(r.deep_view()) == all_shell_quoted(files.deep_view()),
{
    let ghost quoted_all = all_shell_quoted(files.deep_view());
    let ghost reserve = reserve_size as nat;
    let mut quoted_filename_vecs: Vec<Vec<String>> = Vec::new();
    let mut current_quoted_filenames: Vec<String> = Vec::new();
    let mut current_spaced_len: u128 = 0;
    let mut i: usize = 0;
    proof {
        assert(quoted_all.take(0) =~= Seq::<Seq<char>>::empty());
        assert(quoted_filename_vecs.deep_view() =~= Seq::<Seq<Seq<char>>>::empty());
        assert(current_quoted_filenames.deep_view() =~= Seq::<Seq<char>>::empty());
    }
    while i < files.len()
        invariant
            i <= files.len(),
            quoted_all == all_shell_quoted(files.deep_view()),
            reserve == reserve_size as nat,
            current_spaced_len <= usize::MAX as u128 + 1,
            ({
                let p = packed(reserve, quoted_all.take(i as int), limit as nat);
                &&& quoted_filename_vecs.deep_view() == p.closed
                &&& current_quoted_filenames.deep_view() == p.current
                &&& current_spaced_len as nat == p.current_len
            }),
        decreases files.len() - i,
    {
        let quoted = quote_word(files[i].as_str());
        let this_len_with_space: u128 = quoted.as_str().as_bytes().len() as u128 + 1;
        let next_len: u128 = reserve_size as u128 + current_spaced_len + this_len_with_space;
        proof {
            let now = quoted_all.take(i + 1);
            assert(now.drop_last() =~= quoted_all.take(i as int));
            assert(now.last() == quoted@);
            assert(this_len_with_space as nat == byte_len(quoted@) + 1);
        }
        let ghost closed_before = quoted_filename_vecs.deep_view();
        let ghost current_before = current_quoted_filenames.deep_view();
        if next_len >= limit as u128 {
            quoted_filename_vecs.push(current_quoted_filenames);
            current_quoted_filenames = Vec::new();
            current_spaced_len = 0;
            proof {
                assert(quoted_filename_vecs.deep_view() =~= closed_before.push(current_before));
                assert(current_quoted_filenames.deep_view() =~= Seq::<Seq<char>>::empty());
            }
        }
        current_spaced_len = current_spaced_len + this_len_with_space;
        push_text(&mut current_quoted_filenames, quoted);
        proof {
            if next_len >= limit as u128 {
                assert(current_quoted_filenames.deep_view() =~= seq![quoted@]);
            }
        }
        i += 1;
    }
    proof {
        assert(quoted_all.take(files.len() as int) =~= quoted_all);
        lemma_greedy_keeps_order(reserve, quoted_all, limit as nat);
    }
    if current_quoted_filenames.len() > 0 {
        let ghost closed_before = quoted_filename_vecs.deep_view();
        let ghost current_before = current_quoted_filenames.deep_view();
        quoted_filename_vecs.push(current_quoted_filenames);
        assert(quoted_filename_vecs.deep_view() =~= closed_before.push(current_before));
    }
    quoted_filename_vecs
}

/// The names dealt out to `slots` batches in turn: the name at position `i`
/// goes to batch `i % slots`, and each batch keeps the order of arrival.
pub open spec fn dealt(names: Seq<Seq<char>>, slots: nat) -> Seq<Seq<Seq<char>>>
    decreases names.len(),
{
    if names.len() == 0 {
        Seq::new(slots, |j: int| Seq::<Seq<char>>::empty())
    } else {
        let before = dealt(names.drop_last(), slots);
        let slot = (names.len() - 1) % (slots as int);
        before.update(slot, before[slot].push(names.last()))
    }
}

/// Dealing gives as many batches as there are slots.
proof fn lemma_dealt_len(names: Seq<Seq<char>>, slots: nat)
    requires
        slots > 0,
    ensures
        dealt(names, slots).len() == slots,
    decreases names.len(),
{
    if names.len() > 0 {
        lemma_dealt_len(names.drop_last(), slots);
        vstd::arithmetic::div_mod::lemma_mod_bound(names.len() - 1, slots as int);
    }
}

/// All names of a list of batches, as a multiset.
pub open spec fn names_of(batches: Seq<Seq<Seq<char>>>) -> Multiset<Seq<char>>
    decreases batches.len(),
{
    if batches.len() == 0 {
        Multiset::empty()
    } else {
        names_of(batches.drop_last()).add(batches.last().to_multiset())
    }
}

/// Putting one more name into one batch adds that name to the names.
proof fn lemma_names_of_update(batches: Seq<Seq<Seq<char>>>, slot: int, name: Seq<char>)
    requires
        0 <= slot < batches.len(),
    ensures
        names_of(batches.update(slot, batches[slot].push(name))) == names_of(batches).insert(name),
    decreases batches.len(),
{
    broadcast use vstd::seq_lib::group_to_multiset_ensures;

    let after = batches.update(slot, batches[slot].push(name));
    if slot == batches.len() - 1 {
        assert(after.drop_last() =~= batches.drop_last());
        assert(after.last().to_multiset() =~= batches.last().to_multiset().insert(name));
        assert(names_of(after) =~= names_of(batches).insert(name));
    } else {
        lemma_names_of_update(batches.drop_last(), slot, name);
        assert(after.drop_last() =~= batches.drop_last().update(
            slot,
            batches.drop_last()[slot].push(name),
        ));
        assert(after.last() == batches.last());
        assert(names_of(after) =~= names_of(batches).insert(name));
    }
}

/// Batches that are all empty hold no names.
proof fn lemma_names_of_empty(batches: Seq<Seq<Seq<char>>>)
    requires
        forall|i: int| 0 <= i < batches.len() ==> (#[trigger] batches[i]).len() == 0,
    ensures
        names_of(batches) == Multiset::<Seq<char>>::empty(),
    decreases batches.len(),
{
    broadcast use vstd::seq_lib::group_to_multiset_ensures;

    if batches.len() > 0 {
        lemma_names_of_empty(batches.drop_last());
        assert(batches.last().len() == 0);
        assert(batches.last() =~= Seq::<Seq<char>>::empty());
        assert(batches.last().to_multiset() =~= Multiset::<Seq<char>>::empty());
        assert(names_of(batches) =~= Multiset::<Seq<char>>::empty());
    }
}

/// Dealing keeps every name, as often as it was there.
pub proof fn lemma_dealt_keeps_names(names: Seq<Seq<char>>, slots: nat)
    requires
        slots > 0,
    ensures
        names_of(dealt(names, slots)) == names.to_multiset(),
    decreases names.len(),
{
    broadcast use vstd::seq_lib::group_to_multiset_ensures;

    if names.len() == 0 {
        lemma_names_of_empty(dealt(names, slots));
        assert(names.to_multiset() =~= Multiset::<Seq<char>>::empty());
    } else {
        let before = dealt(names.drop_last(), slots);
        lemma_dealt_keeps_names(names.drop_last(), slots);
        lemma_dealt_len(names.drop_last(), slots);
        let slot = (names.len() - 1) % (slots as int);
        vstd::arithmetic::div_mod::lemma_mod_bound(names.len() - 1, slots as int);
        lemma_names_of_update(before, slot, names.last());
        assert(names =~= names.drop_last().push(names.last()));
        assert(names.to_multiset() =~= names.drop_last().to_multiset().insert(names.last()));
    }
}

/// The names of batches put one after the other are the names of the batches.
proof fn lemma_names_of_concat_all(batches: Seq<Seq<Seq<char>>>)
    ensures
        names_of(batches) == concat_all(batches).to_multiset(),
    decreases batches.len(),
{
    broadcast use vstd::seq_lib::group_to_multiset_ensures;

    if batches.len() == 0 {
        assert(concat_all(batches).to_multiset() =~= Multiset::<Seq<char>>::empty());
    } else {
        lemma_names_of_concat_all(batches.drop_last());
        vstd::seq_lib::lemma_multiset_commutative(concat_all(batches.drop_last()), batches.last());
    }
}

/// Deals the names of `sets`, taken batch after batch, out to
/// `target_count` batches in turn.
pub fn split_to_target_count(sets: Vec<Vec<String>>, target_count: usize) -> (r: Vec<Vec<String>>)
    requires
        target_count > 0,
    ensures
        r.deep_view() == dealt(concat_all(sets.deep_view()), target_count as nat),
        r@.len() == target_count,
{
    let mut split_sets: Vec<Vec<String>> = Vec::new();
    let mut n: usize = 0;
    while n < target_count
        invariant
            n <= target_count,
            split_sets@.len() == n,
            forall|j: int| 0 <= j < n ==> (#[trigger] split_sets@[j])@.len() == 0,
        decreases target_count - n,
    {
        split_sets.push(Vec::new());
        n += 1;
    }
    let ghost slots = target_count as nat;
    let ghost mut done: Seq<Seq<char>> = Seq::empty();
    proof {
        assert forall|j: int| 0 <= j < slots implies #[trigger] split_sets.deep_view()[j]
            == Seq::<Seq<char>>::empty() by {
            assert(split_sets@[j]@.len() == 0);
            assert(split_sets.deep_view()[j] =~= Seq::<Seq<char>>::empty());
        }
        assert(split_sets.deep_view() =~= dealt(done, slots));
        assert(concat_all(sets.deep_view().take(0)) =~= done);
    }
    let mut i: usize = 0;
    let mut s: usize = 0;
    while s < sets.len()
        invariant
            s <= sets.len(),
            target_count > 0,
            slots == target_count as nat,
            split_sets@.len() == target_count,
            i < target_count,
            i as int == (done.len() as int) % (slots as int),
            done == concat_all(sets.deep_view().take(s as int)),
            split_sets.deep_view() == dealt(done, slots),
        decreases sets.len() - s,
    {
        let filenames = &sets[s];
        let ghost start = done;
        let mut k: usize = 0;
        assert(filenames.deep_view().take(0) =~= Seq::<Seq<char>>::empty());
        while k < filenames.len()
            invariant
                k <= filenames.len(),
                target_count > 0,
                slots == target_count as nat,
                split_sets@.len() == target_count,
                i < target_count,
                i as int == (done.len() as int) % (slots as int),
                done == start + filenames.deep_view().take(k as int),
                split_sets.deep_view() == dealt(done, slots),
            decreases filenames.len() - k,
        {
            let filename = filenames[k].clone();
            let ghost before = split_sets.deep_view();
            let ghost name = filename@;
            let mut slot: Vec<String> = Vec::new();
            core::mem::swap(&mut slot, &mut split_sets[i]);
            push_text(&mut slot, filename);
            split_sets.set(i, slot);
            proof {
                let grown = done.push(name);
                assert(grown.drop_last() =~= done);
                assert(grown.last() == name);
                assert(split_sets.deep_view() =~= before.update(i as int, before[i as int].push(name)));
                assert(start + filenames.deep_view().take(k + 1) =~= grown);
                lemma_next_slot(done.len() as int, slots as int);
                done = grown;
            }
            i = if i + 1 == target_count {
                0
            } else {
                i + 1
            };
            k += 1;
        }
        s += 1;
        proof {
            let now = sets.deep_view().take(s as int);
            assert(now.drop_last() =~= sets.deep_view().take(s - 1));
            assert(now.last() == filenames.deep_view());
            assert(filenames.deep_view().take(filenames.len() as int) =~= filenames.deep_view());
        }
    }
    assert(sets.deep_view().take(sets.len() as int) =~= sets.deep_view());
    split_sets
}

/// The slot after slot `n % slots` is `(n + 1) % slots`: the next one, or the
/// first one after the last.
proof fn lemma_next_slot(n: int, slots: int)
    requires
        0 <= n,
        0 < slots,
    ensures
        (n + 1) % slots == (if n % slots + 1 == slots {
            0
        } else {
            n % slots + 1
        }),
{
    vstd::arithmetic::div_mod::lemma_fundamental_div_mod(n, slots);
    vstd::arithmetic::div_mod::lemma_mod_bound(n, slots);
    let q = n / slots;
    let r = n % slots;
    assert(slots * q == q * slots) by (nonlinear_arith);
    if r + 1 == slots {
        assert(n + 1 == (q + 1) * slots + 0) by (nonlinear_arith)
            requires
                n == q * slots + r,
                r + 1 == slots,
        ;
        vstd::arithmetic::div_mod::lemma_fundamental_div_mod_converse(n + 1, slots, q + 1, 0);
    } else {
        vstd::arithmetic::div_mod::lemma_fundamental_div_mod_converse(n + 1, slots, q, r + 1);
    }
}

/// The batches of quoted names for the commands of one hook: the greedy
/// batches, unless there are fewer of them than `target_count`; then the
/// names are dealt out to `target_count` batches in turn, whatever length
/// the commands get by that.
pub open spec fn batches_for(reserve: nat, quoted: Seq<Seq<char>>, target_count: nat, limit: nat) -> Seq<
    Seq<Seq<char>>,
> {
    let greedy = greedy_batches(reserve, quoted, limit);
    if greedy.len() < target_count {
        dealt(quoted, target_count)
    } else {
        greedy
    }
}

/// The command for one batch: the prefix, a space, and the names of the
/// batch with a space between neighbours.
pub open spec fn command_of(prefix: Seq<char>, batch: Seq<Seq<char>>) -> Seq<char> {
    prefix + seq![' '] + joined(batch, seq![' '])
}

/// The commands for a list of batches, in order: one for each batch that is
/// not empty.
pub open spec fn commands_of(prefix: Seq<char>, batches: Seq<Seq<Seq<char>>>) -> Seq<Seq<char>>
    decreases batches.len(),
{
    if batches.len() == 0 {
        Seq::empty()
    } else if batches.last().len() == 0 {
        commands_of(prefix, batches.drop_last())
    } else {
        commands_of(prefix, batches.drop_last()).push(command_of(prefix, batches.last()))
    }
}

/// The commands that run `prefix` on `files`.
pub open spec fn generated_commands(
    prefix: Seq<char>,
    files: Seq<Seq<char>>,
    target_count: nat,
    limit: nat,
) -> Seq<Seq<char>> {
    commands_of(
        prefix,
        batches_for(byte_len(prefix) + 1, all_shell_quoted(files), target_count, limit),
    )
}

/// A space takes one byte.
proof fn lemma_space_len()
    ensures
        byte_len(seq![' ']) == 1,
{
    let s = seq![' '];
    assert(s.drop_first() =~= Seq::<char>::empty());
    assert(encode_utf8(s.drop_first()).len() == 0);
    assert(s[0] == ' ');
    assert(has_width_1_encoding(' ' as u32));
    assert(encode_scalar(' ' as u32).len() == 1);
    assert(encode_utf8(s) == encode_scalar(s[0] as u32) + encode_utf8(s.drop_first()));
}

/// The names of a batch that is not empty, joined by spaces, take as many
/// bytes as the batch adds to a command, less the last space.
proof fn lemma_joined_len(batch: Seq<Seq<char>>)
    requires
        batch.len() > 0,
    ensures
        byte_len(joined(batch, seq![' '])) + 1 == spaced_len(batch),
    decreases batch.len(),
{
    if batch.len() == 1 {
        assert(spaced_len(batch.drop_last()) == 0);
    } else {
        lemma_joined_len(batch.drop_last());
        lemma_space_len();
        lemma_byte_len_concat(joined(batch.drop_last(), seq![' ']), seq![' ']);
        lemma_byte_len_concat(joined(batch.drop_last(), seq![' ']) + seq![' '], batch.last());
    }
}

/// The command of a batch that is not empty is as long as its prefix and
/// what the batch adds.
proof fn lemma_command_len(prefix: Seq<char>, batch: Seq<Seq<char>>)
    requires
        batch.len() > 0,
    ensures
        byte_len(command_of(prefix, batch)) == byte_len(prefix) + spaced_len(batch),
{
    lemma_joined_len(batch);
    lemma_space_len();
    lemma_byte_len_concat(prefix, seq![' ']);
    lemma_byte_len_concat(prefix + seq![' '], joined(batch, seq![' ']));
}

/// Where every name fits into a command of its own, greedy packing gives
/// only batches that keep their commands under the limit.
proof fn lemma_packed_fits(reserve: nat, quoted: Seq<Seq<char>>, limit: nat)
    requires
        forall|i: int| 0 <= i < quoted.len() ==> fits_alone(reserve, #[trigger] quoted[i], limit),
    ensures
        ({
            let p = packed(reserve, quoted, limit);
            &&& p.current_len == spaced_len(p.current)
            &&& p.current.len() > 0 ==> batch_fits(reserve, p.current, limit)
            &&& forall|i: int|
                0 <= i < p.closed.len() && (#[trigger] p.closed[i]).len() > 0 ==> batch_fits(
                    reserve,
                    p.closed[i],
                    limit,
                )
        }),
    decreases quoted.len(),
{
    let p = packed(reserve, quoted, limit);
    if quoted.len() > 0 {
        let before = packed(reserve, quoted.drop_last(), limit);
        assert forall|i: int| 0 <= i < quoted.drop_last().len() implies fits_alone(
            reserve,
            #[trigger] quoted.drop_last()[i],
            limit,
        ) by {
            assert(quoted.drop_last()[i] == quoted[i]);
        }
        lemma_packed_fits(reserve, quoted.drop_last(), limit);
        let name = quoted.last();
        assert(fits_alone(reserve, quoted[quoted.len() - 1], limit));
        if reserve + before.current_len + byte_len(name) + 1 >= limit {
            assert(p.current.drop_last() =~= Seq::<Seq<char>>::empty());
            assert(spaced_len(p.current.drop_last()) == 0);
            assert forall|i: int| 0 <= i < p.closed.len() && (#[trigger] p.closed[i]).len()
                > 0 implies batch_fits(reserve, p.closed[i], limit) by {
                if i < before.closed.len() {
                    assert(p.closed[i] == before.closed[i]);
                }
            }
        } else {
            assert(p.current.drop_last() =~= before.current);
        }
    }
}

/// Every command comes from a batch that is not empty.
proof fn lemma_commands_from_batches(prefix: Seq<char>, batches: Seq<Seq<Seq<char>>>)
    ensures
        forall|c: int|
            0 <= c < commands_of(prefix, batches).len() ==> exists|b: int|
                0 <= b < batches.len() && batches[b].len() > 0 && #[trigger] commands_of(
                    prefix,
                    batches,
                )[c] == command_of(prefix, #[trigger] batches[b]),
    decreases batches.len(),
{
    if batches.len() > 0 {
        let head = batches.drop_last();
        lemma_commands_from_batches(prefix, head);
        let all = commands_of(prefix, batches);
        assert forall|c: int| 0 <= c < all.len() implies exists|b: int|
            0 <= b < batches.len() && batches[b].len() > 0 && #[trigger] all[c] == command_of(
                prefix,
                #[trigger] batches[b],
            ) by {
            if c < commands_of(prefix, head).len() {
                assert(all[c] == commands_of(prefix, head)[c]);
                let b = choose|b: int|
                    0 <= b < head.len() && head[b].len() > 0 && #[trigger] commands_of(prefix, head)[c]
                        == command_of(prefix, #[trigger] head[b]);
                assert(batches[b] == head[b]);
            } else {
                assert(all[c] == command_of(prefix, batches[batches.len() - 1]));
            }
        }
    }
}

/// Every command is shorter than the limit, where no name is too long for
/// a command of its own and the names are not dealt out again. (Dealing the
/// names out to more batches can make a command longer than the limit.)
pub proof fn lemma_commands_fit(
    prefix: Seq<char>,
    files: Seq<Seq<char>>,
    target_count: nat,
    limit: nat,
)
    requires
        forall|i: int|
            0 <= i < files.len() ==> fits_alone(
                byte_len(prefix) + 1,
                shell_quoted(#[trigger] files[i]),
                limit,
            ),
        greedy_batches(byte_len(prefix) + 1, all_shell_quoted(files), limit).len() >= target_count,
    ensures
        forall|c: int|
            0 <= c < generated_commands(prefix, files, target_count, limit).len() ==> byte_len(
                #[trigger] generated_commands(prefix, files, target_count, limit)[c],
            ) < limit,
{
    let reserve = byte_len(prefix) + 1;
    let quoted = all_shell_quoted(files);
    let batches = greedy_batches(reserve, quoted, limit);
    let p = packed(reserve, quoted, limit);
    assert forall|i: int| 0 <= i < quoted.len() implies fits_alone(
        reserve,
        #[trigger] quoted[i],
        limit,
    ) by {
        assert(quoted[i] == shell_quoted(files[i]));
    }
    lemma_packed_fits(reserve, quoted, limit);
    lemma_commands_from_batches(prefix, batches);
    let commands = generated_commands(prefix, files, target_count, limit);
    assert(commands == commands_of(prefix, batches));
    assert forall|c: int| 0 <= c < commands.len() implies byte_len(#[trigger] commands[c])
        < limit by {
        let b = choose|b: int|
            0 <= b < batches.len() && batches[b].len() > 0 && #[trigger] commands_of(prefix, batches)[c]
                == command_of(prefix, #[trigger] batches[b]);
        lemma_command_len(prefix, batches[b]);
        if b < p.closed.len() {
            assert(batches[b] == p.closed[b]);
        } else {
            assert(batches[b] == p.current);
        }
    }
}

/// The batches hold every quoted name as often as the input holds it,
/// whether they were packed greedily or dealt out.
pub proof fn lemma_batches_keep_names(
    reserve: nat,
    quoted: Seq<Seq<char>>,
    target_count: nat,
    limit: nat,
)
    ensures
        names_of(batches_for(reserve, quoted, target_count, limit)) == quoted.to_multiset(),
{
    let greedy = greedy_batches(reserve, quoted, limit);
    if greedy.len() < target_count {
        lemma_dealt_keeps_names(quoted, target_count);
    } else {
        lemma_greedy_keeps_order(reserve, quoted, limit);
        lemma_names_of_concat_all(greedy);
    }
}

/// With a prefix so long that no name fits, the exact size of the prefix
/// makes no difference: every name closes the batch before it.
proof fn lemma_packed_over_limit(r1: nat, r2: nat, quoted: Seq<Seq<char>>, limit: nat)
    requires
        r1 + 1 >= limit,
        r2 + 1 >= limit,
    ensures
        packed(r1, quoted, limit) == packed(r2, quoted, limit),
    decreases quoted.len(),
{
    if quoted.len() > 0 {
        lemma_packed_over_limit(r1, r2, quoted.drop_last(), limit);
    }
}

/// Quotes the file names and puts them into the batches that the commands
/// are made from: see [`batches_for`]. Every name ends up in exactly one
/// batch.
pub fn pack_filenames(command_prefix: &str, files: &Vec<String>, target_count: usize, limit: usize) -> (r:
    Vec<Vec<String>>)
    ensures
        r.deep_view() == batches_for(
            byte_len(command_prefix@) + 1,
            all_shell_quoted(files.deep_view()),
            target_count as nat,
            limit as nat,
        ),
        names_of(r.deep_view()) == all_shell_quoted(files.deep_view()).to_multiset(),
{
    let prefix_len = command_prefix.as_bytes().len();
    let prefix_and_space_len = if prefix_len == usize::MAX {
        usize::MAX
    } else {
        prefix_len + 1
    };
    proof {
        let quoted = all_shell_quoted(files.deep_view());
        if prefix_len == usize::MAX {
            lemma_packed_over_limit(
                prefix_and_space_len as nat,
                byte_len(command_prefix@) + 1,
                quoted,
                limit as nat,
            );
        }
        lemma_batches_keep_names(
            byte_len(command_prefix@) + 1,
            quoted,
            target_count as nat,
            limit as nat,
        );
    }
    let quoted_filename_sets = get_quoted_filenames(prefix_and_space_len, files, limit);
    if quoted_filename_sets.len() < target_count {
        split_to_target_count(quoted_filename_sets, target_count)
    } else {
        quoted_filename_sets
    }
}

/// Makes the shell commands that run `command_prefix` on `files`: the file
/// names are quoted and packed into batches, and each batch that is not
/// empty gives one command, the prefix followed by the names.
///
/// Where no quoted name is too long for a command of its own, and packing
/// gives at least `target_count` batches, every command is shorter than
/// `limit` bytes.
pub fn generate_commands(
    command_prefix: &str,
    files: &Vec<String>,
    target_count: usize,
    limit: usize,
) -> (r: Vec<String>)
    ensures
        r.deep_view() == generated_commands(
            command_prefix@,
            files.deep_view(),
            target_count as nat,
            limit as nat,
        ),
        ({
            let reserve = byte_len(command_prefix@) + 1;
            let quoted = all_shell_quoted(files.deep_view());
            (greedy_batches(reserve, quoted, limit as nat).len() >= target_count && forall|i: int|
                0 <= i < files.deep_view().len() ==> fits_alone(
                    reserve,
                    shell_quoted(#[trigger] files.deep_view()[i]),
                    limit as nat,
                )) ==> forall|c: int| 0 <= c < r.deep_view().len() ==> byte_len(#[trigger] r.deep_view()[c]) < limit
        }),
{
    let batches = pack_filenames(command_prefix, files, target_count, limit);
    let mut commands: Vec<String> = Vec::new();
    let mut b: usize = 0;
    assert(commands.deep_view() =~= commands_of(command_prefix@, batches.deep_view().take(0)));
    while b < batches.len()
        invariant
            b <= batches.len(),
            commands.deep_view() == commands_of(command_prefix@, batches.deep_view().take(b as int)),
        decreases batches.len() - b,
    {
        let batch = &batches[b];
        if batch.len() > 0 {
            let names = crate::text::join_with(batch, " ");
            let command = crate::text::join3(command_prefix, " ", names.as_str());
            proof {
                reveal_strlit(" ");
                assert(" "@ =~= seq![' ']);
            }
            push_text(&mut commands, command);
        }
        b += 1;
        proof {
            let now = batches.deep_view().take(b as int);
            assert(now.drop_last() =~= batches.deep_view().take(b - 1));
            assert(now.last() == batch.deep_view());
        }
    }
    proof {
        assert(batches.deep_view().take(batches.len() as int) =~= batches.deep_view());
        let reserve = byte_len(command_prefix@) + 1;
        let quoted = all_shell_quoted(files.deep_view());
        if greedy_batches(reserve, quoted, limit as nat).len() >= target_count && forall|i: int|
            0 <= i < files.deep_view().len() ==> fits_alone(
                reserve,
                shell_quoted(#[trigger] files.deep_view()[i]),
                limit as nat,
            ) {
            lemma_commands_fit(command_prefix@, files.deep_view(), target_count as nat, limit as nat);
        }
    }
    commands
}

/// The commands of one hook: where file names are passed, the generated
/// commands for them, dealt out to `parallelism` batches unless the hook
/// runs serially; where none are passed, the command itself, once.
pub open spec fn hook_commands(
    command: Seq<char>,
    files: Option<Seq<Seq<char>>>,
    parallelism: nat,
    serial: bool,
    limit: nat,
) -> Seq<Seq<char>> {
    match files {
        Some(f) => generated_commands(
            command,
            f,
            if serial {
                1
            } else {
                parallelism
            },
            limit,
        ),
        None => seq![command],
    }
}

/// Makes the commands of one hook: see [`hook_commands`].
pub fn commands_for_files(
    command: &str,
    files: Option<&Vec<String>>,
    parallelism: usize,
    serial: bool,
    limit: usize,
) -> (r: Vec<String>)
    ensures
        r.deep_view() == hook_commands(
            command@,
            files.deep_view(),
            parallelism as nat,
            serial,
            limit as nat,
        ),
{
    let target_count = if serial {
        1
    } else {
        parallelism
    };
    match files {
        Some(filenames) => generate_commands(command, filenames, target_count, limit),
        None => {
            let mut commands: Vec<String> = Vec::new();
            push_text(&mut commands, command.to_owned());
            assert(commands.deep_view() =~= seq![command@]);
            commands
        },
    }
}

/// What running one command gave.
#[derive(Debug, Clone, PartialEq)]
pub struct RunCommandOutput {
    /// The command line.
    pub command: String,
    /// What the command wrote to its standard output, where that was captured.
    pub stdout: Option<String>,
    /// What the command wrote to its standard error, where that was captured.
    pub stderr: Option<String>,
    /// Whether the command exited with status zero.
    pub success: bool,
    /// The exit status as the system words it.
    pub status: String,
}

/// The mathematical value of a [`RunCommandOutput`].
pub struct RunCommandOutputView {
    pub command: Seq<char>,
    pub stdout: Option<Seq<char>>,
    pub stderr: Option<Seq<char>>,
    pub success: bool,
    pub status: Seq<char>,
}

impl DeepView for RunCommandOutput {
    type V = RunCommandOutputView;

    open spec fn deep_view(&self) -> RunCommandOutputView {
        RunCommandOutputView {
            command: self.command@,
            stdout: self.stdout.deep_view(),
            stderr: self.stderr.deep_view(),
            success: self.success,
            status: self.status@,
        }
    }
}

/// One line for a captured stream, where there is one.
pub open spec fn stream_report(label: Seq<char>, captured: Option<Seq<char>>) -> Seq<Seq<char>> {
    match captured {
        Some(text) => seq![label + text],
        None => Seq::empty(),
    }
}

/// What is reported of a command: nothing where it succeeded, else the
/// command with its status, and what was captured of its output.
pub open spec fn output_report(o: RunCommandOutputView) -> Seq<Seq<char>> {
    if o.success {
        Seq::empty()
    } else {
        seq!["command '"@ + o.command + "' returned "@ + o.status] + stream_report(
            "stdout:\n"@,
            o.stdout,
        ) + stream_report("stderr:\n"@, o.stderr)
    }
}

impl RunCommandOutput {
    /// The messages to report if the command failed: see [`output_report`].
    pub fn failure_report(&self) -> (r: Vec<String>)
        ensures
            r.deep_view() == output_report(self.deep_view()),
    {
        let mut lines: Vec<String> = Vec::new();
        if self.success {
            assert(lines.deep_view() =~= output_report(self.deep_view()));
            return lines;
        }
        let head = join3("command '", self.command.as_str(), "' returned ");
        push_text(&mut lines, join2(head.as_str(), self.status.as_str()));
        match &self.stdout {
            Some(stdout) => {
                push_text(&mut lines, join2("stdout:\n", stdout.as_str()));
            },
            None => {},
        }
        match &self.stderr {
            Some(stderr) => {
                push_text(&mut lines, join2("stderr:\n", stderr.as_str()));
            },
            None => {},
        }
        assert(lines.deep_view() =~= output_report(self.deep_view()));
        lines
    }

    /// The result of a hook that consists of this command alone.
    pub fn to_run_hook_result(&self) -> (r: RunHookResult)
        ensures
            r == (if self.success {
                RunHookResult::Success
            } else {
                RunHookResult::Failure
            }),
    {
        if self.success {
            RunHookResult::Success
        } else {
            RunHookResult::Failure
        }
    }
}

/// What running the commands of one hook gave, in the order of the
/// commands: for each its output, or the error that kept it from running.
#[derive(Debug, Clone, PartialEq)]
pub struct RunCommandOnFilesOutput {
    pub results: Vec<Result<RunCommandOutput, String>>,
}

/// Whether a command ran and exited with status zero.
pub open spec fn command_succeeded(result: Result<RunCommandOutput, String>) -> bool {
    match result {
        Ok(output) => output.success,
        Err(_) => false,
    }
}

/// Whether every command ran and exited with status zero.
pub open spec fn all_succeeded(results: Seq<Result<RunCommandOutput, String>>) -> bool {
    forall|i: int| 0 <= i < results.len() ==> command_succeeded(#[trigger] results[i])
}

/// What is reported of one command of a hook.
pub open spec fn result_report(result: Result<RunCommandOutput, String>) -> Seq<Seq<char>> {
    match result {
        Ok(output) => output_report(output.deep_view()),
        Err(error) => seq!["error running command: "@ + error@],
    }
}

/// What is reported of the commands of a hook, command after command.
pub open spec fn results_report(results: Seq<Result<RunCommandOutput, String>>) -> Seq<Seq<char>>
    decreases results.len(),
{
    if results.len() == 0 {
        Seq::empty()
    } else {
        results_report(results.drop_last()) + result_report(results.last())
    }
}

impl RunCommandOnFilesOutput {
    /// The messages to report of the commands that failed or could not be
    /// run, in the order of the commands.
    pub fn failure_report(&self) -> (r: Vec<String>)
        ensures
            r.deep_view() == results_report(self.results@),
    {
        let mut lines: Vec<String> = Vec::new();
        let mut i: usize = 0;
        assert(lines.deep_view() =~= results_report(self.results@.take(0)));
        while i < self.results.len()
            invariant
                i <= self.results@.len(),
                lines.deep_view() == results_report(self.results@.take(i as int)),
            decreases self.results@.len() - i,
        {
            let ghost before = lines.deep_view();
            match &self.results[i] {
                Ok(res) => {
                    let mut more = res.failure_report();
                    let ghost added = more.deep_view();
                    lines.append(&mut more);
                    assert(lines.deep_view() =~= before + added);
                },
                Err(e) => {
                    push_text(&mut lines, join2("error running command: ", e.as_str()));
                    assert(lines.deep_view() =~= before + result_report(self.results@[i as int]));
                },
            }
            i += 1;
            proof {
                let now = self.results@.take(i as int);
                assert(now.drop_last() =~= self.results@.take(i - 1));
                assert(now.last() == self.results@[i - 1]);
            }
        }
        assert(self.results@.take(self.results@.len() as int) =~= self.results@);
        lines
    }

    /// The result of the hook: success if and only if every command ran and
    /// exited with status zero.
    pub fn to_run_hook_result(&self) -> (r: RunHookResult)
        ensures
            r == (if all_succeeded(self.results@) {
                RunHookResult::Success
            } else {
                RunHookResult::Failure
            }),
    {
        let mut i: usize = 0;
        while i < self.results.len()
            invariant
                i <= self.results@.len(),
                forall|k: int| 0 <= k < i ==> command_succeeded(#[trigger] self.results@[k]),
            decreases self.results@.len() - i,
        {
            let ok = match &self.results[i] {
                Ok(res) => res.success,
                Err(_) => false,
            };
            if !ok {
                assert(!command_succeeded(self.results@[i as int]));
                return RunHookResult::Failure;
            }
            i += 1;
        }
        RunHookResult::Success
    }
}

} // verus!
