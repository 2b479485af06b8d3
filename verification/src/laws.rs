//! Properties of the load path proved once and for all from the loader's
//! contract: rejected images leave the system untouched, no context with
//! an out-of-bounds entry address is ever scheduled (and its allocation is
//! released), and repeated loads create independent contexts backed by
//! disjoint physical allocations.

use vstd::prelude::*;
use crate::context::{Console, ContextFile, spec_stream_fds};
use crate::image::{spec_entry, spec_payload, spec_valid_image, spec_virtual_size};
use crate::loader::{
    VIRTUAL_ADDRESS, execute_post, lemma_cstr_space_lower, spec_arg_space, spec_creates,
    spec_entry_in_bounds, spec_loadable,
};
use crate::memory::Allocator;
use crate::sched::Scheduler;

verus! {

/// An image source that cannot be opened, or a buffer the parser rejects,
/// never changes the run set, and no allocation or release takes place.
pub proof fn lemma_rejected_image_leaves_run_set(
    a0: Allocator,
    s0: Scheduler,
    a1: Allocator,
    s1: Scheduler,
    img: Option<Seq<u8>>,
    wd: Seq<char>,
    path: Seq<char>,
    args: Seq<Seq<char>>,
    console: Console,
)
    requires
        execute_post(a0, s0, a1, s1, img, wd, path, args, console),
        img is None || !spec_valid_image(img.unwrap()),
    ensures
        s1.run@ == s0.run@,
        a1 == a0,
{
    assert(!spec_loadable(img));
}

/// An image whose advertised entry address falls outside its own mapped
/// region is never scheduled, and the physical allocation already made for
/// it is released again: one allocation, one release, and every region
/// that was live before is untouched.
pub proof fn lemma_out_of_bounds_entry_rolls_back(
    a0: Allocator,
    s0: Scheduler,
    a1: Allocator,
    s1: Scheduler,
    img: Option<Seq<u8>>,
    wd: Seq<char>,
    path: Seq<char>,
    args: Seq<Seq<char>>,
    console: Console,
)
    requires
        execute_post(a0, s0, a1, s1, img, wd, path, args, console),
        spec_loadable(img),
        a0.spec_can_alloc(spec_virtual_size(img.unwrap())),
        !spec_entry_in_bounds(img.unwrap()),
    ensures
        s1.run@ == s0.run@,
        a1.alloc_count == a0.alloc_count + 1,
        a1.free_count == a0.free_count + 1,
        !a1.live_at(a0.next_base),
        forall|b: usize| #[trigger] a1.live_at(b) <==> a0.live_at(b),
{
    assert forall|b: usize| #[trigger] a1.live_at(b) <==> a0.live_at(b) by {
        if b != a0.next_base {
            assert(a1.live_at(b) <==> a0.live_at(b));
        }
    }
}

/// Every context the loader ever schedules has its entry address strictly
/// inside its single mapped region.
pub proof fn lemma_created_entry_in_bounds(
    a0: Allocator,
    s0: Scheduler,
    a1: Allocator,
    s1: Scheduler,
    img: Option<Seq<u8>>,
    wd: Seq<char>,
    path: Seq<char>,
    args: Seq<Seq<char>>,
    console: Console,
)
    requires
        execute_post(a0, s0, a1, s1, img, wd, path, args, console),
        s1.run@.len() != s0.run@.len(),
    ensures
        s0.initialized,
        spec_creates(a0, img, path, args),
        s1.run@.len() == s0.run@.len() + 1,
        s1.run@.last().memory@.len() == 1,
        s1.run@.last().entry == spec_entry(img.unwrap()),
        s1.run@.last().memory@[0].virtual_address == VIRTUAL_ADDRESS,
        s1.run@.last().memory@[0].virtual_size == spec_virtual_size(img.unwrap()),
        VIRTUAL_ADDRESS <= s1.run@.last().entry,
        s1.run@.last().entry < VIRTUAL_ADDRESS + s1.run@.last().memory@[0].virtual_size,
        s1.run@.last().memory@[0].physical_address != 0,
        a1.live_at(s1.run@.last().memory@[0].physical_address),
        a1.bytes_at(s1.run@.last().memory@[0].physical_address) == spec_payload(img.unwrap()),
{
}

/// With the console available for all three opens, a freshly created
/// context carries exactly the three standard streams, as descriptors
/// 0, 1 and 2 in that order.
pub proof fn lemma_streams_all_attached(console: Console)
    requires
        console.stdin,
        console.stdout,
        console.stderr,
    ensures
        spec_stream_fds(console) == seq![0usize, 1usize, 2usize],
{
    assert(spec_stream_fds(console) =~= seq![0usize, 1usize, 2usize]);
}

/// A context created while the console can be opened for all three
/// standard streams carries exactly three file entries, with descriptors
/// 0, 1 and 2 in that order.
pub proof fn lemma_created_context_has_standard_streams(
    a0: Allocator,
    s0: Scheduler,
    a1: Allocator,
    s1: Scheduler,
    img: Option<Seq<u8>>,
    wd: Seq<char>,
    path: Seq<char>,
    args: Seq<Seq<char>>,
    console: Console,
)
    requires
        execute_post(a0, s0, a1, s1, img, wd, path, args, console),
        spec_creates(a0, img, path, args),
        s0.initialized,
        console.stdin,
        console.stdout,
        console.stderr,
    ensures
        s1.run@.last().files@.len() == 3,
        s1.run@.last().files@[0].fd == 0,
        s1.run@.last().files@[1].fd == 1,
        s1.run@.last().files@[2].fd == 2,
{
    lemma_streams_all_attached(console);
    let c = s1.run@.last();
    let fds = c.files@.map_values(|f: ContextFile| f.fd);
    assert(fds.len() == c.files@.len());
    assert(c.files@[0].fd == fds[0]);
    assert(c.files@[1].fd == fds[1]);
    assert(c.files@[2].fd == fds[2]);
}

/// Loading twice is not idempotent: two successful loads append two
/// contexts, and their memory regions rest on distinct live physical
/// allocations, each still holding its own image's payload.
pub proof fn lemma_independent_creations(
    a0: Allocator,
    s0: Scheduler,
    a1: Allocator,
    s1: Scheduler,
    a2: Allocator,
    s2: Scheduler,
    img1: Option<Seq<u8>>,
    wd1: Seq<char>,
    path1: Seq<char>,
    args1: Seq<Seq<char>>,
    console1: Console,
    img2: Option<Seq<u8>>,
    wd2: Seq<char>,
    path2: Seq<char>,
    args2: Seq<Seq<char>>,
    console2: Console,
)
    requires
        execute_post(a0, s0, a1, s1, img1, wd1, path1, args1, console1),
        execute_post(a1, s1, a2, s2, img2, wd2, path2, args2, console2),
        spec_creates(a0, img1, path1, args1),
        spec_creates(a1, img2, path2, args2),
        s0.initialized,
    ensures
        s2.run@.len() == s0.run@.len() + 2,
        s2.run@[s0.run@.len() as int].memory@[0].physical_address != s2.run@[s0.run@.len()
            as int + 1].memory@[0].physical_address,
        a2.live_at(s2.run@[s0.run@.len() as int].memory@[0].physical_address),
        a2.live_at(s2.run@[s0.run@.len() as int + 1].memory@[0].physical_address),
        a2.bytes_at(s2.run@[s0.run@.len() as int].memory@[0].physical_address) == spec_payload(
            img1.unwrap(),
        ),
        a2.bytes_at(s2.run@[s0.run@.len() as int + 1].memory@[0].physical_address)
            == spec_payload(img2.unwrap()),
{
    let phys1 = a0.next_base;
    let phys2 = a1.next_base;
    let n0 = s0.run@.len() as int;
    assert(s1.run@[n0] == s1.run@.last());
    assert(s2.run@.subrange(0, n0 + 1) == s1.run@);
    assert(s2.run@[n0] == s2.run@.subrange(0, n0 + 1)[n0]);
    assert(s2.run@[n0 + 1] == s2.run@.last());
    lemma_cstr_space_lower(args1);
    assert(spec_arg_space(path1, args1) >= 0);
    assert(a1.next_base >= a0.next_base + spec_virtual_size(img1.unwrap()));
    assert(spec_virtual_size(img1.unwrap()) > 0);
    assert(phys2 > phys1);
    assert(a1.live_at(phys1));
    assert(a2.live_at(phys1) && a2.bytes_at(phys1) == a1.bytes_at(phys1));
}

} // verus!
