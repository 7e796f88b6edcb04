use laplace::guest_heap::{calloc, free, malloc, realloc, BumpAllocator};
use laplace::guest_js::{
    console_line, date_now_ms, db_reply, eval_js, js_db_query, js_is_exception, random_fraction,
    DbQuery, EvalEvent, JSValue, JS_TAG_EXCEPTION, JS_TAG_STRING,
};
use laplace::layout::{HEAP_GPA, HEAP_SIZE, MAILBOX_SIZE};

#[test]
fn blocks_are_aligned_and_disjoint() {
    let mut a = BumpAllocator::new();
    let mut mem = vec![0xEEu8; HEAP_SIZE];
    let p = malloc(&mut a, &mut mem, 5).unwrap();
    let q = malloc(&mut a, &mut mem, 0).unwrap();
    let r = malloc(&mut a, &mut mem, 100).unwrap();
    assert_eq!(p, HEAP_GPA + 16);
    assert_eq!(q, HEAP_GPA + 48);
    assert_eq!(r, HEAP_GPA + 80);
    // the header in front of a block holds its size
    assert_eq!(&mem[0..8], &5u64.to_le_bytes());
    assert_eq!(&mem[64..72], &100u64.to_le_bytes());
    free(&mut a, p);
    assert_eq!(a.next, r + 100);
}

#[test]
fn allocator_runs_out() {
    let mut a = BumpAllocator::new();
    let mut mem = vec![0u8; HEAP_SIZE];
    assert_eq!(malloc(&mut a, &mut mem, HEAP_SIZE as u64), None);
    assert_eq!(a, BumpAllocator::new());
    assert_eq!(malloc(&mut a, &mut mem, HEAP_SIZE as u64 - 16), Some(HEAP_GPA + 16));
    assert_eq!(malloc(&mut a, &mut mem, 0), None);
    assert_eq!(a.allocate(1, 1), None);
    assert_eq!(a.allocate(0, 16), Some(HEAP_GPA + HEAP_SIZE as u64));
}

#[test]
fn impossible_sizes_are_refused() {
    let mut a = BumpAllocator::new();
    let mut mem = vec![0u8; HEAP_SIZE];
    assert_eq!(malloc(&mut a, &mut mem, u64::MAX), None);
    assert_eq!(malloc(&mut a, &mut mem, 0x7FFF_FFFF_FFFF_FFFF), None);
    assert_eq!(calloc(&mut a, &mut mem, u64::MAX, 2), None);
    assert_eq!(a, BumpAllocator::new());
}

#[test]
fn calloc_zeroes() {
    let mut a = BumpAllocator::new();
    let mut mem = vec![0xEEu8; HEAP_SIZE];
    let p = calloc(&mut a, &mut mem, 3, 4).unwrap();
    let at = (p - HEAP_GPA) as usize;
    assert_eq!(&mem[at..at + 13], &[0, 0, 0, 0, 0, 0, 0, 0, 0, 0, 0, 0, 0xEE]);
}

#[test]
fn realloc_keeps_contents() {
    let mut a = BumpAllocator::new();
    let mut mem = vec![0u8; HEAP_SIZE];
    let p = realloc(&mut a, &mut mem, None, 4).unwrap();
    let at = (p - HEAP_GPA) as usize;
    mem[at..at + 4].copy_from_slice(&[1, 2, 3, 4]);
    let q = realloc(&mut a, &mut mem, Some(p), 8).unwrap();
    let to = (q - HEAP_GPA) as usize;
    assert_eq!(&mem[to..to + 5], &[1, 2, 3, 4, 0]);
    let r = realloc(&mut a, &mut mem, Some(q), 2).unwrap();
    let to = (r - HEAP_GPA) as usize;
    assert_eq!(&mem[to..to + 3], &[1, 2, 0]);
    // the old block is left as it was
    assert_eq!(&mem[at..at + 4], &[1, 2, 3, 4]);
}

#[test]
fn alignment_is_kept() {
    let mut a = BumpAllocator::new();
    assert_eq!(a.allocate(3, 1), Some(HEAP_GPA));
    assert_eq!(a.allocate(8, 8), Some(HEAP_GPA + 8));
    assert_eq!(a.allocate(1, 4096), Some(HEAP_GPA + 4096));
}

#[test]
fn values_are_tagged() {
    assert!(js_is_exception(JSValue { u: 0, tag: JS_TAG_EXCEPTION }));
    assert!(!js_is_exception(JSValue::undefined()));
    assert_eq!(JSValue::new_float64(1.5f64.to_bits()).tag, 8);
    assert_eq!(JSValue::undefined().tag, 3);
    assert_eq!(JS_TAG_STRING, -7);
}

#[test]
fn clock_and_chance_are_scaled() {
    assert_eq!(date_now_ms(1_700_000_000_123_456_789), 1_700_000_000_123);
    assert_eq!(random_fraction(u64::MAX), (1 << 53) - 1);
    assert_eq!(random_fraction(2047), 0);
    assert_eq!(random_fraction(2048), 1);
}

#[test]
fn console_log_joins_its_arguments() {
    assert_eq!(console_line(&vec![]), b"\n");
    assert_eq!(console_line(&vec![Some(b"a".to_vec())]), b"a\n");
    assert_eq!(
        console_line(&vec![Some(b"a".to_vec()), None, Some(b"bc".to_vec())]),
        b"a  bc\n"
    );
}

#[test]
fn bad_queries_are_undefined() {
    let mut mailbox = vec![3u8; MAILBOX_SIZE];
    assert_eq!(
        js_db_query(0, None, &mut mailbox),
        DbQuery::Undefined { message: Some("db.query: missing collection argument\n") }
    );
    assert_eq!(js_db_query(1, None, &mut mailbox), DbQuery::Undefined { message: None });
    let long = vec![b'x'; MAILBOX_SIZE];
    assert_eq!(
        js_db_query(1, Some(&long), &mut mailbox),
        DbQuery::Undefined { message: Some("db.query: collection name too long\n") }
    );
    assert_eq!(mailbox, vec![3u8; MAILBOX_SIZE]);
}

#[test]
fn useless_answers_are_empty_arrays() {
    let mailbox = vec![b'1'; MAILBOX_SIZE];
    assert_eq!(db_reply(0, &mailbox), b"[]");
    assert_eq!(db_reply(MAILBOX_SIZE as u64, &mailbox), b"[]");
    assert_eq!(db_reply(u64::MAX, &mailbox), b"[]");
    assert_eq!(db_reply(3, &mailbox), b"111");
}

#[test]
fn evaluation_reports() {
    assert_eq!(
        eval_js(&EvalEvent::NoRuntime),
        (b"Failed to create JS runtime\n".to_vec(), 1)
    );
    assert_eq!(
        eval_js(&EvalEvent::NoContext),
        (b"Failed to create JS context\n".to_vec(), 1)
    );
    let exception = JSValue { u: 0, tag: JS_TAG_EXCEPTION };
    assert_eq!(
        eval_js(&EvalEvent::Returned { value: exception, text: Some(b"oops".to_vec()) }),
        (b"Exception: oops\n".to_vec(), 1)
    );
    assert_eq!(eval_js(&EvalEvent::Returned { value: exception, text: None }), (vec![], 1));
    let string = JSValue { u: 0, tag: JS_TAG_STRING };
    assert_eq!(
        eval_js(&EvalEvent::Returned { value: string, text: Some(b"hi".to_vec()) }),
        (b"hi\n".to_vec(), 0)
    );
    let number = JSValue::new_float64(0);
    assert_eq!(
        eval_js(&EvalEvent::Returned { value: number, text: Some(b"0".to_vec()) }),
        (vec![], 0)
    );
}
