use procloader::context::Console;
use procloader::image::parse_image;
use procloader::loader::{arg_space_needed, cstr_bytes, execute};
use procloader::memory::Allocator;
use procloader::sched::Scheduler;

const HEADER_UNIT: usize = 4096;
const VIRTUAL_ADDRESS: usize = 0x8000_0000;

fn make_image(len: usize, entry: u32) -> Vec<u8> {
    let mut v = vec![0u8; len];
    v[0] = 0x7f;
    v[1] = 0x58;
    v[2] = 0x45;
    v[3] = 0x43;
    let e = entry.to_le_bytes();
    v[8] = e[0];
    v[9] = e[1];
    v[10] = e[2];
    v[11] = e[3];
    for i in HEADER_UNIT..len {
        v[i] = (i % 251) as u8;
    }
    v
}

fn console_all() -> Console {
    Console { stdin: true, stdout: true, stderr: true }
}

fn region_bytes(a: &Allocator, base: usize) -> Vec<u8> {
    for r in &a.regions {
        if r.base == base {
            return r.bytes.clone();
        }
    }
    panic!("no live region at base {}", base);
}

fn strings(v: &[&str]) -> Vec<String> {
    v.iter().map(|s| s.to_string()).collect()
}

#[test]
fn absent_source_changes_nothing() {
    let mut a = Allocator::new();
    let mut s = Scheduler::new();
    let wd = "file:///".to_string();
    let path = "app://bin".to_string();
    let args = strings(&["a"]);
    execute(&mut a, &mut s, console_all(), None, &wd, &path, &args);
    assert_eq!(s.run.len(), 0);
    assert_eq!(a.alloc_count, 0);
    assert_eq!(a.free_count, 0);
    assert_eq!(a.live_region_count(), 0);
}

#[test]
fn rejected_buffer_changes_nothing() {
    let mut a = Allocator::new();
    let mut s = Scheduler::new();
    let wd = "file:///".to_string();
    let path = "app://bin".to_string();
    let args = strings(&[]);
    let junk = vec![0u8; 2 * HEADER_UNIT];
    execute(&mut a, &mut s, console_all(), Some(junk), &wd, &path, &args);
    assert_eq!(s.run.len(), 0);
    assert_eq!(a.alloc_count, 0);
    assert_eq!(a.free_count, 0);
}

#[test]
fn unaligned_image_rejected() {
    let mut a = Allocator::new();
    let mut s = Scheduler::new();
    let wd = "file:///".to_string();
    let path = "app://bin".to_string();
    let args = strings(&[]);
    let img = make_image(5000, 0x8000_0100);
    execute(&mut a, &mut s, console_all(), Some(img), &wd, &path, &args);
    assert_eq!(s.run.len(), 0);
    assert_eq!(a.alloc_count, 0);
    assert_eq!(a.free_count, 0);
}

#[test]
fn header_only_image_rejected() {
    let mut a = Allocator::new();
    let mut s = Scheduler::new();
    let wd = "file:///".to_string();
    let path = "app://bin".to_string();
    let args = strings(&[]);
    let img = make_image(HEADER_UNIT, 0x8000_0000);
    execute(&mut a, &mut s, console_all(), Some(img), &wd, &path, &args);
    assert_eq!(s.run.len(), 0);
    assert_eq!(a.alloc_count, 0);
    assert_eq!(a.free_count, 0);
}

#[test]
fn well_formed_image_creates_context() {
    let mut a = Allocator::new();
    let mut s = Scheduler::new();
    let wd = "file:///home".to_string();
    let path = "app://bin".to_string();
    let args = strings(&["a", "b", "c"]);
    let img = make_image(8192, 0x8000_0100);
    let payload: Vec<u8> = img[HEADER_UNIT..].to_vec();
    execute(&mut a, &mut s, console_all(), Some(img), &wd, &path, &args);

    assert_eq!(s.run.len(), 1);
    let ctx = &s.run[0];
    assert_eq!(ctx.entry, 0x8000_0100);
    assert_eq!(ctx.cwd, "file:///home");

    assert_eq!(ctx.memory.len(), 1);
    let region = &ctx.memory[0];
    assert_eq!(region.virtual_address, VIRTUAL_ADDRESS);
    assert_eq!(region.virtual_size, 8192 - HEADER_UNIT);
    assert!(region.physical_address != 0);
    assert_eq!(a.alloc_size(region.physical_address), 8192 - HEADER_UNIT);
    assert_eq!(region_bytes(&a, region.physical_address), payload);

    // Low index to high: envp null, argv null, args reversed, path, argc.
    assert_eq!(ctx.args.len(), 7);
    assert_eq!(ctx.args[0], 0);
    assert_eq!(ctx.args[1], 0);
    assert_eq!(region_bytes(&a, ctx.args[2]), b"c\0".to_vec());
    assert_eq!(region_bytes(&a, ctx.args[3]), b"b\0".to_vec());
    assert_eq!(region_bytes(&a, ctx.args[4]), b"a\0".to_vec());
    assert_eq!(region_bytes(&a, ctx.args[5]), b"app://bin\0".to_vec());
    assert_eq!(ctx.args[6], 4);
    for j in 2..6 {
        for k in (j + 1)..6 {
            assert_ne!(ctx.args[j], ctx.args[k]);
        }
    }

    assert_eq!(ctx.files.len(), 3);
    assert_eq!(ctx.files[0].fd, 0);
    assert_eq!(ctx.files[1].fd, 1);
    assert_eq!(ctx.files[2].fd, 2);
    for f in &ctx.files {
        assert_eq!(f.resource.url, "debug://");
    }

    // One physical region, one native string per argument, one for the path.
    assert_eq!(a.alloc_count, 5);
    assert_eq!(a.free_count, 0);
    assert_eq!(a.live_region_count(), 5);
    assert!(s.ints_enabled);
}

#[test]
fn entry_at_exclusive_bound_rejected() {
    let mut a = Allocator::new();
    let mut s = Scheduler::new();
    let wd = "file:///".to_string();
    let path = "app://bin".to_string();
    let args = strings(&["a"]);
    // virtual_size is 4096, so this entry sits exactly one past the end.
    let img = make_image(8192, 0x8000_1000);
    execute(&mut a, &mut s, console_all(), Some(img), &wd, &path, &args);
    assert_eq!(s.run.len(), 0);
    assert_eq!(a.alloc_count, 1);
    assert_eq!(a.free_count, 1);
    assert_eq!(a.live_region_count(), 0);
}

#[test]
fn entry_below_base_rejected() {
    let mut a = Allocator::new();
    let mut s = Scheduler::new();
    let wd = "file:///".to_string();
    let path = "app://bin".to_string();
    let args = strings(&[]);
    let img = make_image(8192, 0x7fff_ffff);
    execute(&mut a, &mut s, console_all(), Some(img), &wd, &path, &args);
    assert_eq!(s.run.len(), 0);
    assert_eq!(a.alloc_count, 1);
    assert_eq!(a.free_count, 1);
}

#[test]
fn two_executes_create_independent_contexts() {
    let mut a = Allocator::new();
    let mut s = Scheduler::new();
    let wd = "file:///".to_string();
    let path = "app://bin".to_string();
    let args = strings(&["x"]);
    let img = make_image(8192, 0x8000_0200);
    execute(&mut a, &mut s, console_all(), Some(img.clone()), &wd, &path, &args);
    execute(&mut a, &mut s, console_all(), Some(img.clone()), &wd, &path, &args);
    assert_eq!(s.run.len(), 2);
    let p0 = s.run[0].memory[0].physical_address;
    let p1 = s.run[1].memory[0].physical_address;
    assert_ne!(p0, p1);
    let payload: Vec<u8> = img[HEADER_UNIT..].to_vec();
    assert_eq!(region_bytes(&a, p0), payload);
    assert_eq!(region_bytes(&a, p1), payload);
}

#[test]
fn missing_console_stream_skips_slot() {
    let mut a = Allocator::new();
    let mut s = Scheduler::new();
    let wd = "file:///".to_string();
    let path = "app://bin".to_string();
    let args = strings(&[]);
    let img = make_image(8192, 0x8000_0000);
    let console = Console { stdin: true, stdout: false, stderr: true };
    execute(&mut a, &mut s, console, Some(img), &wd, &path, &args);
    assert_eq!(s.run.len(), 1);
    let fds: Vec<usize> = s.run[0].files.iter().map(|f| f.fd).collect();
    assert_eq!(fds, vec![0, 2]);
}

#[test]
fn console_unavailable_leaves_no_streams() {
    let mut a = Allocator::new();
    let mut s = Scheduler::new();
    let wd = "file:///".to_string();
    let path = "app://bin".to_string();
    let args = strings(&[]);
    let img = make_image(8192, 0x8000_0000);
    let console = Console { stdin: false, stdout: false, stderr: false };
    execute(&mut a, &mut s, console, Some(img), &wd, &path, &args);
    assert_eq!(s.run.len(), 1);
    assert_eq!(s.run[0].files.len(), 0);
}

#[test]
fn uninitialized_scheduler_discards_context() {
    let mut a = Allocator::new();
    let mut s = Scheduler { run: Vec::new(), initialized: false, ints_enabled: true };
    let wd = "file:///".to_string();
    let path = "app://bin".to_string();
    let args = strings(&[]);
    let img = make_image(8192, 0x8000_0000);
    execute(&mut a, &mut s, console_all(), Some(img), &wd, &path, &args);
    assert_eq!(s.run.len(), 0);
    assert!(s.ints_enabled);
    // The load itself went through: the allocations were still made.
    assert_eq!(a.alloc_count, 2);
}

#[test]
fn critical_section_restores_prior_state() {
    let mut s = Scheduler::new();
    assert!(s.ints_enabled);
    let outer = s.start_no_ints();
    assert!(outer);
    assert!(!s.ints_enabled);
    let inner = s.start_no_ints();
    assert!(!inner);
    s.end_no_ints(inner);
    assert!(!s.ints_enabled);
    s.end_no_ints(outer);
    assert!(s.ints_enabled);
}

#[test]
fn parse_reads_little_endian_entry() {
    let img = make_image(8192, 0x1234_5678);
    let info = parse_image(&img).expect("well-formed image");
    assert_eq!(info.entry, 0x1234_5678);
}

#[test]
fn parse_rejects_bad_magic() {
    let mut img = make_image(8192, 0x8000_0100);
    img[1] = 0x00;
    assert!(parse_image(&img).is_none());
}

#[test]
fn parse_rejects_short_buffer() {
    let img = vec![0x7f, 0x58, 0x45, 0x43];
    assert!(parse_image(&img).is_none());
}

#[test]
fn arg_space_counts_every_byte() {
    let path = "p".to_string();
    let args = strings(&["ab"]);
    // "ab" and its terminator, then "p" and its terminator.
    assert_eq!(arg_space_needed(&path, &args), Some(5));
}

#[test]
fn cstr_appends_terminator() {
    let v = cstr_bytes(&"hi".to_string());
    assert_eq!(v, b"hi\0".to_vec());
}

#[test]
fn allocator_hands_out_fresh_disjoint_regions() {
    let mut a = Allocator::new();
    let r1 = a.allocate(16);
    let r2 = a.allocate(32);
    assert!(r1 != 0 && r2 != 0);
    assert_ne!(r1, r2);
    assert_eq!(a.alloc_size(r1), 16);
    assert_eq!(a.alloc_size(r2), 32);
    assert_eq!(a.alloc_count, 2);
    a.unalloc(r1);
    assert_eq!(a.free_count, 1);
    assert_eq!(a.live_region_count(), 1);
    assert_eq!(a.alloc_size(r2), 32);
}

#[test]
fn allocator_refuses_empty_request() {
    let mut a = Allocator::new();
    assert_eq!(a.allocate(0), 0);
    assert_eq!(a.alloc_count, 0);
}
