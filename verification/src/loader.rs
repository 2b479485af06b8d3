//! The process loader: validates an executable image, populates a fresh
//! physical region with its payload, builds the initial argument layout,
//! assembles an execution context, and registers it with the scheduler.

use vstd::prelude::*;
use vstd::utf8::encode_utf8;
use crate::context::{Console, Context, ContextMemory, spec_console_source, spec_stream_fds};
use crate::image::{
    HEADER_UNIT, parse_image, spec_entry, spec_payload, spec_valid_image, spec_virtual_size,
};
use crate::memory::{Allocator, preserved, preserved_except};
use crate::sched::Scheduler;

verus! {

/// The fixed virtual address at which the single loadable segment is
/// mapped for every process.
pub const VIRTUAL_ADDRESS: usize = 0x8000_0000;

/// The native string representation handed to the new process: the
/// string's bytes followed by a terminating zero byte.
pub open spec fn spec_cstr(s: Seq<char>) -> Seq<u8> {
    encode_utf8(s) + seq![0u8]
}

/// Total bytes needed to convert each of `strs` to its native
/// representation.
pub open spec fn spec_cstr_space(strs: Seq<Seq<char>>) -> int
    decreases strs.len(),
{
    if strs.len() == 0 {
        0
    } else {
        spec_cstr_space(strs.drop_last()) + spec_cstr(strs.last()).len()
    }
}

/// Total bytes needed to convert the argument strings and the program
/// path for the new process.
pub open spec fn spec_arg_space(path: Seq<char>, args: Seq<Seq<char>>) -> int {
    spec_cstr_space(args) + spec_cstr(path).len()
}

/// Converting strings takes at least one byte each.
pub proof fn lemma_cstr_space_lower(strs: Seq<Seq<char>>)
    ensures
        spec_cstr_space(strs) >= strs.len(),
    decreases strs.len(),
{
    if strs.len() > 0 {
        lemma_cstr_space_lower(strs.drop_last());
    }
}

/// One more prefix element adds exactly that element's converted length.
pub proof fn lemma_cstr_space_take_succ(strs: Seq<Seq<char>>, k: int)
    requires
        0 <= k < strs.len(),
    ensures
        spec_cstr_space(strs.take(k + 1)) == spec_cstr_space(strs.take(k)) + spec_cstr(
            strs[k],
        ).len(),
{
    assert(strs.take(k + 1).drop_last() =~= strs.take(k));
    assert(strs.take(k + 1).last() == strs[k]);
}

/// A prefix never needs more space than the whole.
pub proof fn lemma_cstr_space_take_le(strs: Seq<Seq<char>>, k: int)
    requires
        0 <= k <= strs.len(),
    ensures
        spec_cstr_space(strs.take(k)) <= spec_cstr_space(strs),
    decreases strs.len() - k,
{
    if k == strs.len() {
        assert(strs.take(k) =~= strs);
    } else {
        lemma_cstr_space_take_succ(strs, k);
        lemma_cstr_space_lower(strs.take(k + 1));
        assert(spec_cstr(strs[k]).len() >= 1);
        lemma_cstr_space_take_le(strs, k + 1);
    }
}

/// The native representation of one string: its bytes and a terminating
/// zero byte.
pub fn cstr_bytes(s: &String) -> (v: Vec<u8>)
    ensures
        v@ == spec_cstr(s@),
        v@.len() == spec_cstr(s@).len(),
        v@.len() >= 1,
{
    let bytes = s.as_str().as_bytes();
    let mut v: Vec<u8> = Vec::new();
    v.extend_from_slice(bytes);
    v.push(0);
    proof {
        assert(v@ =~= spec_cstr(s@));
    }
    v
}

/// A copy of `count` bytes of `src` starting at `start`.
pub fn copy_range(src: &Vec<u8>, start: usize, count: usize) -> (v: Vec<u8>)
    requires
        start + count <= src@.len(),
    ensures
        v@ == src@.subrange(start as int, start + count),
{
    let len: usize = src.len();
    let mut v: Vec<u8> = Vec::new();
    let mut i: usize = 0;
    while i < count
        invariant
            i <= count,
            len == src@.len(),
            start + count <= src@.len(),
            v@ =~= src@.subrange(start as int, start + i),
        decreases count - i,
    {
        v.push(src[start + i]);
        i = i + 1;
    }
    proof {
        assert(v@ =~= src@.subrange(start as int, start + count));
    }
    v
}

/// Bytes needed to convert the path and every argument, or `None` when the
/// total cannot be represented.
pub fn arg_space_needed(path: &String, args: &Vec<String>) -> (r: Option<usize>)
    ensures
        r is Some <==> spec_arg_space(path@, args.deep_view()) <= usize::MAX,
        r is Some ==> r.unwrap() == spec_arg_space(path@, args.deep_view()),
{
    let ghost av = args.deep_view();
    let n = args.len();
    let mut total: usize = 0;
    let mut i: usize = 0;
    while i < n
        invariant
            i <= n,
            n == args@.len(),
            av == args.deep_view(),
            total == spec_cstr_space(av.take(i as int)),
        decreases n - i,
    {
        proof {
            lemma_cstr_space_take_succ(av, i as int);
            assert(av[i as int] == args@[i as int]@);
        }
        let m = args[i].as_str().as_bytes().len();
        if m >= usize::MAX - total {
            proof {
                lemma_cstr_space_take_le(av, i + 1);
                assert(spec_cstr(path@).len() >= 1);
            }
            return None;
        }
        total = total + m + 1;
        i = i + 1;
    }
    proof {
        assert(av.take(n as int) =~= av);
    }
    let p = path.as_str().as_bytes().len();
    if p >= usize::MAX - total {
        return None;
    }
    Some(total + p + 1)
}

/// `base` is the address of a live region holding exactly the native
/// representation of `s`.
pub open spec fn spec_points_to_cstr(a: Allocator, base: usize, s: Seq<char>) -> bool {
    &&& base != 0
    &&& a.live_at(base)
    &&& a.bytes_at(base) == spec_cstr(s)
}

/// The initial argument layout, read from low index to high: a null
/// environment pointer, a null argument-vector terminator, the address of
/// each argument's native string in reverse input order, the address of the
/// program path's native string, and the argument count. Read from high
/// index to low it reproduces the count, the path, each argument in
/// original input order, and the two terminators. All addresses are
/// pairwise distinct live regions of `a`.
pub open spec fn spec_args_ok(
    layout: Seq<usize>,
    a: Allocator,
    path: Seq<char>,
    args: Seq<Seq<char>>,
) -> bool {
    let n = args.len() as int;
    &&& layout.len() == n + 4
    &&& layout[0] == 0
    &&& layout[1] == 0
    &&& forall|j: int|
        0 <= j < n ==> spec_points_to_cstr(a, #[trigger] layout[2 + j], args[n - 1 - j])
    &&& spec_points_to_cstr(a, layout[n + 2], path)
    &&& layout[n + 3] == n + 1
    &&& forall|j: int, k: int| 2 <= j < k < n + 3 ==> layout[j] != layout[k]
}

/// Converts every argument string and the program path to its native
/// representation in fresh allocator regions and builds the initial
/// argument layout. All-or-nothing: the caller must have checked that the
/// whole conversion fits, so every allocation here succeeds.
pub fn build_args(a: &mut Allocator, path: &String, args: &Vec<String>) -> (layout: Vec<usize>)
    requires
        old(a).wf(),
        old(a).next_base + spec_arg_space(path@, args.deep_view()) <= usize::MAX,
    ensures
        final(a).wf(),
        spec_args_ok(layout@, *final(a), path@, args.deep_view()),
        final(a).alloc_count == old(a).alloc_count + args@.len() + 1,
        final(a).free_count == old(a).free_count,
        final(a).next_base == old(a).next_base + spec_arg_space(path@, args.deep_view()),
        preserved(*old(a), *final(a)),
    {
    let ghost av = args.deep_view();
    let n = args.len();
    proof {
        lemma_cstr_space_lower(av);
        assert(spec_cstr(path@).len() >= 1);
        assert(old(a).next_base >= 1);
        assert(n + 1 < usize::MAX);
        assert(av.take(n as int) =~= av);
    }
    let mut layout: Vec<usize> = Vec::new();
    layout.push(0);
    layout.push(0);
    let mut i: usize = 0;
    while i < n
        invariant
            a.wf(),
            n == args@.len(),
            av == args.deep_view(),
            av.len() == n,
            i <= n,
            layout@.len() == i + 2,
            layout@[0] == 0,
            layout@[1] == 0,
            a.next_base + spec_cstr_space(av.take(n - i)) + spec_cstr(path@).len() <= usize::MAX,
            a.next_base == old(a).next_base + spec_cstr_space(av) - spec_cstr_space(
                av.take(n - i),
            ),
            a.alloc_count == old(a).alloc_count + i,
            a.free_count == old(a).free_count,
            preserved(*old(a), *a),
            forall|j: int|
                0 <= j < i ==> spec_points_to_cstr(*a, #[trigger] layout@[2 + j], av[n - 1 - j]),
            forall|j: int| 2 <= j < i + 2 ==> 0 < #[trigger] layout@[j] < a.next_base,
            forall|j: int, k: int| 2 <= j < k < i + 2 ==> layout@[j] != layout@[k],
        decreases n - i,
    {
        proof {
            lemma_cstr_space_take_succ(av, n - i - 1);
            lemma_cstr_space_lower(av.take(n - i - 1));
            assert(av[n - 1 - i] == args@[n - 1 - i]@);
        }
        let data = cstr_bytes(&args[n - 1 - i]);
        let ghost before = *a;
        let base = a.alloc_init(data);
        proof {
            assert(base != 0);
            crate::memory::lemma_preserved_from_except(before, *a, base);
            crate::memory::lemma_preserved_trans(*old(a), before, *a);
            assert forall|j: int| 0 <= j < i implies spec_points_to_cstr(
                *a,
                #[trigger] layout@[2 + j],
                av[n - 1 - j],
            ) by {
                assert(before.live_at(layout@[2 + j]));
                assert(layout@[2 + j] != base);
            }
        }
        layout.push(base);
        i = i + 1;
        proof {
            assert(av.take(n - i + 1).drop_last() =~= av.take(n - i));
        }
    }
    proof {
        assert(av.take(n - i) =~= Seq::<Seq<char>>::empty());
        assert(spec_cstr_space(av.take(n - i)) == 0);
    }
    let data = cstr_bytes(path);
    let ghost before = *a;
    let pbase = a.alloc_init(data);
    proof {
        assert(pbase != 0);
        crate::memory::lemma_preserved_from_except(before, *a, pbase);
        crate::memory::lemma_preserved_trans(*old(a), before, *a);
        assert forall|j: int| 0 <= j < n implies spec_points_to_cstr(
            *a,
            #[trigger] layout@[2 + j],
            av[n - 1 - j],
        ) by {
            assert(before.live_at(layout@[2 + j]));
            assert(layout@[2 + j] != pbase);
        }
    }
    layout.push(pbase);
    let argc = n + 1;
    layout.push(argc);
    proof {
        assert(spec_args_ok(layout@, *a, path@, av));
    }
    layout
}

/// The advertised entry address lies strictly within the mapped segment.
pub open spec fn spec_entry_in_bounds(d: Seq<u8>) -> bool {
    VIRTUAL_ADDRESS <= spec_entry(d) < VIRTUAL_ADDRESS + spec_virtual_size(d)
}

/// The image source was readable, the parser accepts the buffer, and the
/// payload is not empty, so the loader attempts an allocation.
pub open spec fn spec_loadable(img: Option<Seq<u8>>) -> bool {
    &&& img is Some
    &&& spec_valid_image(img.unwrap())
    &&& spec_virtual_size(img.unwrap()) > 0
}

/// Every check on the way to process creation passes: the image is
/// loadable, the physical allocation succeeds, the entry address is in
/// bounds, and the whole argument conversion fits in the address space.
pub open spec fn spec_creates(
    a0: Allocator,
    img: Option<Seq<u8>>,
    path: Seq<char>,
    args: Seq<Seq<char>>,
) -> bool {
    &&& spec_loadable(img)
    &&& a0.spec_can_alloc(spec_virtual_size(img.unwrap()))
    &&& spec_entry_in_bounds(img.unwrap())
    &&& a0.next_base + spec_virtual_size(img.unwrap()) + spec_arg_space(path, args) <= usize::MAX
}

/// What the one context created for image `d` looks like, judged against
/// the allocator state `a` after the call: validated entry, the single
/// memory region at the fixed virtual address backed by the live physical
/// region `phys` holding the payload, the argument layout, the copied
/// working directory, and the attached standard streams.
pub open spec fn spec_context_ok(
    c: Context,
    a: Allocator,
    d: Seq<u8>,
    wd: Seq<char>,
    path: Seq<char>,
    args: Seq<Seq<char>>,
    console: Console,
    phys: usize,
) -> bool {
    &&& c.entry == spec_entry(d)
    &&& c.cwd@ == wd
    &&& c.memory@.len() == 1
    &&& c.memory@[0].physical_address == phys
    &&& c.memory@[0].virtual_address == VIRTUAL_ADDRESS
    &&& c.memory@[0].virtual_size == spec_virtual_size(d)
    &&& phys != 0
    &&& a.live_at(phys)
    &&& a.bytes_at(phys) == spec_payload(d)
    &&& a.size_at(phys) == spec_virtual_size(d)
    &&& spec_args_ok(c.args@, a, path, args)
    &&& c.files@.map_values(|f: crate::context::ContextFile| f.fd) == spec_stream_fds(console)
    &&& forall|i: int|
        0 <= i < c.files@.len() ==> (#[trigger] c.files@[i]).resource.url@
            == spec_console_source()
}

/// Everything `execute` promises, relating the allocator and scheduler
/// before (`a0`, `s0`) and after (`a1`, `s1`) the call. Failures are
/// silent: when no process is created the run set is unchanged and no
/// allocation is leaked; when the validation gate fails after the physical
/// allocation was made, that allocation is released again; on success
/// exactly one context is appended to the run set (none before scheduler
/// initialization) and every previously live region is untouched.
pub open spec fn execute_post(
    a0: Allocator,
    s0: Scheduler,
    a1: Allocator,
    s1: Scheduler,
    img: Option<Seq<u8>>,
    wd: Seq<char>,
    path: Seq<char>,
    args: Seq<Seq<char>>,
    console: Console,
) -> bool {
    let d = img.unwrap();
    let vs = spec_virtual_size(d);
    let phys = a0.next_base;
    &&& s1.ints_enabled == s0.ints_enabled
    &&& s1.initialized == s0.initialized
    &&& (!spec_loadable(img) ==> a1 == a0 && s1 == s0)
    &&& (spec_loadable(img) && !a0.spec_can_alloc(vs) ==> a1 == a0 && s1 == s0)
    &&& (spec_loadable(img) && a0.spec_can_alloc(vs) && !(spec_entry_in_bounds(d) && a0.next_base
        + vs + spec_arg_space(path, args) <= usize::MAX) ==> {
        &&& s1.run@ == s0.run@
        &&& a1.alloc_count == a0.alloc_count + 1
        &&& a1.free_count == a0.free_count + 1
        &&& a1.next_base == a0.next_base + vs
        &&& preserved_except(a0, a1, phys)
        &&& !a1.live_at(phys)
        &&& !a0.live_at(phys)
    })
    &&& (spec_creates(a0, img, path, args) ==> {
        &&& a1.alloc_count == a0.alloc_count + 2 + args.len()
        &&& a1.free_count == a0.free_count
        &&& a1.next_base == a0.next_base + vs + spec_arg_space(path, args)
        &&& preserved(a0, a1)
        &&& !a0.live_at(phys)
        &&& (!s0.initialized ==> s1.run@ == s0.run@)
        &&& (s0.initialized ==> {
            &&& s1.run@.len() == s0.run@.len() + 1
            &&& s1.run@.subrange(0, s0.run@.len() as int) == s0.run@
            &&& spec_context_ok(s1.run@.last(), a1, d, wd, path, args, console, phys)
        })
    })
}

/// Loads the executable image read from a source, validates it, assembles
/// an execution context for it, and registers the context with the
/// scheduler. `image` holds the bytes read from the image source, or
/// `None` when the source could not be opened; `path` is the source's
/// name, which becomes the program path in the argument layout. All
/// failures are silent: the caller cannot distinguish them except by
/// observing the run set.
pub fn execute(
    allocator: &mut Allocator,
    scheduler: &mut Scheduler,
    console: Console,
    image: Option<Vec<u8>>,
    wd: &String,
    path: &String,
    args: &Vec<String>,
)
    requires
        old(allocator).wf(),
    ensures
        final(allocator).wf(),
        execute_post(
            *old(allocator),
            *old(scheduler),
            *final(allocator),
            *final(scheduler),
            image.deep_view(),
            wd@,
            path@,
            args.deep_view(),
            console,
        ),
{
    let ghost img = image.deep_view();
    let virtual_address: usize = VIRTUAL_ADDRESS;
    let mut physical_address: usize = 0;
    let mut virtual_size: usize = 0;
    let mut entry: usize = 0;

    match &image {
        Some(buf) => {
            match parse_image(buf) {
                Some(info) => {
                    proof {
                        assert(buf.deep_view() =~= buf@);
                    }
                    // A well-formed buffer spans whole header units, so the
                    // usable size of its backing allocation is exactly its
                    // length; the header unit itself must not be mapped.
                    virtual_size = buf.len() - HEADER_UNIT;
                    physical_address = allocator.allocate(virtual_size);
                    if physical_address != 0 {
                        let ghost after_alloc = *allocator;
                        let payload = copy_range(buf, HEADER_UNIT, virtual_size);
                        allocator.store(physical_address, payload);
                        proof {
                            crate::memory::lemma_preserved_except_trans(
                                *old(allocator),
                                after_alloc,
                                *allocator,
                                physical_address,
                            );
                            assert(allocator.bytes_at(physical_address) =~= spec_payload(
                                img.unwrap(),
                            ));
                        }
                    }
                    entry = info.entry;
                }
                None => {},
            }
        },
        None => {},
    }

    if physical_address > 0 && virtual_address > 0 && virtual_size > 0 && entry >= virtual_address
        && entry - virtual_address < virtual_size {
        let fits = match arg_space_needed(path, args) {
            Some(needed) => allocator.can_reserve(needed),
            None => false,
        };
        if fits {
            let ghost mid = *allocator;
            let context_args = build_args(allocator, path, args);
            let mut context = Context::new(entry, context_args);
            context.memory.push(
                ContextMemory { physical_address, virtual_address, virtual_size },
            );
            context.cwd = wd.clone();
            context.attach_streams(console);
            proof {
                assert(mid.live_at(physical_address));
                crate::memory::lemma_preserved_from_except(
                    *old(allocator),
                    mid,
                    physical_address,
                );
                crate::memory::lemma_preserved_trans(*old(allocator), mid, *allocator);
                assert(context.files@.map_values(|f: crate::context::ContextFile| f.fd)
                    =~= spec_stream_fds(console));
            }
            scheduler.register(context);
            proof {
                if old(scheduler).initialized {
                    assert(scheduler.run@.subrange(0, old(scheduler).run@.len() as int) =~= old(
                        scheduler,
                    ).run@);
                }
                assert(execute_post(
                    *old(allocator),
                    *old(scheduler),
                    *allocator,
                    *scheduler,
                    img,
                    wd@,
                    path@,
                    args.deep_view(),
                    console,
                ));
            }
        } else {
            let ghost mid = *allocator;
            allocator.unalloc(physical_address);
            proof {
                crate::memory::lemma_preserved_except_trans(
                    *old(allocator),
                    mid,
                    *allocator,
                    physical_address,
                );
                assert(execute_post(
                    *old(allocator),
                    *old(scheduler),
                    *allocator,
                    *scheduler,
                    img,
                    wd@,
                    path@,
                    args.deep_view(),
                    console,
                ));
            }
        }
    } else if physical_address > 0 {
        let ghost mid = *allocator;
        allocator.unalloc(physical_address);
        proof {
            crate::memory::lemma_preserved_except_trans(
                *old(allocator),
                mid,
                *allocator,
                physical_address,
            );
            assert(execute_post(
                *old(allocator),
                *old(scheduler),
                *allocator,
                *scheduler,
                img,
                wd@,
                path@,
                args.deep_view(),
                console,
            ));
        }
    } else {
        proof {
            assert(execute_post(
                *old(allocator),
                *old(scheduler),
                *allocator,
                *scheduler,
                img,
                wd@,
                path@,
                args.deep_view(),
                console,
            ));
        }
    }
}

} // verus!
