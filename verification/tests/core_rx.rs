use steady_state::core_rx::{
    advance_index_amount, clamp_to_capacity, defrag_flush_plan, payload_split, ring_avail_units,
    stream_advance_amount, stream_item_ready, DoubleSlice, DoubleSliceCopy, QuadSlice, RxDone,
    StreamControlItem, StreamQuadSliceCopy,
};

#[derive(Clone, Copy, Debug, PartialEq)]
struct Item(i32);

impl StreamControlItem for Item {
    fn spec_length(&self) -> i32 {
        self.0
    }

    fn length(&self) -> i32 {
        self.0
    }
}

#[test]
fn double_slice_reads_in_order() {
    let a = [1, 2, 3];
    let b = [4, 5];
    let s = (&a[..], &b[..]);
    assert_eq!(s.to_vec(), vec![1, 2, 3, 4, 5]);
    assert_eq!(s.total_len(), 5);
}

#[test]
fn double_slice_copy_fills_what_fits() {
    let a = [1, 2, 3];
    let b = [4, 5];
    let s = (&a[..], &b[..]);
    let mut small = [0; 4];
    assert_eq!(s.copy_into_slice(&mut small), RxDone::Normal(4));
    assert_eq!(small, [1, 2, 3, 4]);
    let mut big = [0; 7];
    assert_eq!(s.copy_into_slice(&mut big), RxDone::Normal(5));
    assert_eq!(big, [1, 2, 3, 4, 5, 0, 0]);
}

#[test]
fn quad_slice_halves() {
    let ia = [Item(1)];
    let ib = [Item(2)];
    let pa = [9u8];
    let pb = [8u8, 7u8];
    let q = (&ia[..], &ib[..], &pa[..], &pb[..]);
    assert_eq!(q.items_vec(), vec![Item(1), Item(2)]);
    assert_eq!(q.payload_vec(), vec![9, 8, 7]);
    assert_eq!(q.items_len(), 2);
    assert_eq!(q.payload_len(), 3);
}

#[test]
fn stream_copy_takes_whole_items_only() {
    let ia = [Item(2), Item(1)];
    let ib = [Item(3)];
    let pa = [10u8, 11, 12];
    let pb = [13u8, 14, 15];
    let q = (&ia[..], &ib[..], &pa[..], &pb[..]);
    let mut items = [Item(0); 3];
    let mut bytes = [0u8; 5];
    // Items of 2 and 1 bytes fit; the third (3 bytes) would need 6.
    assert_eq!(q.copy_items_and_payloads(&mut items, &mut bytes), (2, 3));
    assert_eq!(&items[..2], &[Item(2), Item(1)]);
    assert_eq!(&bytes[..3], &[10, 11, 12]);
    let mut one = [Item(0); 1];
    let mut roomy = [0u8; 16];
    assert_eq!(q.copy_items_and_payloads(&mut one, &mut roomy), (1, 2));
}

#[test]
fn advancing_indices() {
    assert_eq!(advance_index_amount(5, 3), RxDone::Normal(3));
    assert_eq!(advance_index_amount(2, 3), RxDone::Normal(2));
    assert_eq!(stream_advance_amount((2, 10), 2, 10), RxDone::Stream(2, 10));
    assert_eq!(stream_advance_amount((3, 10), 2, 10), RxDone::Stream(0, 0));
    assert_eq!(stream_advance_amount((2, 11), 2, 10), RxDone::Stream(0, 0));
}

#[test]
fn ring_occupancy() {
    assert_eq!(ring_avail_units(8, 5, 2), 3);
    assert_eq!(ring_avail_units(8, 2, 12), 6);
    assert_eq!(ring_avail_units(8, 4, 4), 0);
    assert_eq!(ring_avail_units(8, 8, 0), 8);
}

#[test]
fn stream_items_and_payload_halves() {
    assert!(stream_item_ready(4, 4));
    assert!(!stream_item_ready(5, 4));
    assert_eq!(payload_split(3, 5), (3, 2));
    assert_eq!(payload_split(8, 5), (5, 0));
    assert_eq!(clamp_to_capacity(10, 4), 4);
    assert_eq!(clamp_to_capacity(3, 4), 3);
}

#[test]
fn defrag_flush_is_bounded_by_room() {
    let a = [Item(4), Item(2)];
    let b = [Item(5)];
    let plan = defrag_flush_plan(&a, &b, 10, 3);
    assert_eq!((plan.msg_count, plan.items_from_first, plan.items_from_second), (3, 2, 1));
    assert_eq!(plan.total_bytes, 11);
    assert_eq!((plan.bytes_from_first, plan.bytes_from_second), (3, 8));
    let plan = defrag_flush_plan(&a, &b, 1, 100);
    assert_eq!((plan.msg_count, plan.items_from_first, plan.items_from_second), (1, 1, 0));
    assert_eq!((plan.total_bytes, plan.bytes_from_first, plan.bytes_from_second), (4, 4, 0));
}
