use geomcanvas::graphics::dyn_vertex_buffer::{
    grow_destructive, grow_preserving, AllocationError, DynVertexBuffer,
};
use std::collections::TryReserveError;

/// A vertex as a drawing program would store it.
#[derive(Clone, Copy, Debug, PartialEq)]
struct Vertex {
    position: [f32; 2],
    color: u32,
}

fn vertex(i: usize) -> Vertex {
    Vertex { position: [i as f32, -(i as f32)], color: i as u32 }
}

fn vertices(from: usize, count: usize) -> Vec<Vertex> {
    (from..from + count).map(vertex).collect()
}

fn granted<T>(capacity: usize) -> Result<Vec<T>, TryReserveError> {
    let mut store = Vec::new();
    store.try_reserve(capacity).map(|()| store)
}

fn refused<T>() -> Result<Vec<T>, TryReserveError> {
    let mut store: Vec<u64> = Vec::new();
    Err(store.try_reserve(usize::MAX).unwrap_err())
}

#[test]
fn a_new_buffer_is_empty_and_has_no_capacity() {
    let buffer = DynVertexBuffer::<Vertex>::new().unwrap();
    assert_eq!(buffer.size(), 0);
    assert_eq!(buffer.capacity(), 0);
    assert!(buffer.get().is_empty());
}

#[test]
fn a_buffer_is_made_with_the_capacity_asked_for() {
    let buffer = DynVertexBuffer::<Vertex>::with_capacity(13).unwrap();
    assert_eq!(buffer.size(), 0);
    assert_eq!(buffer.capacity(), 13);
    assert!(buffer.get().is_empty());
    let buffer = DynVertexBuffer::<u8>::with_capacity(0).unwrap();
    assert_eq!(buffer.capacity(), 0);
}

#[test]
fn a_buffer_on_a_given_store() {
    let buffer = DynVertexBuffer::<u32>::with_store(5, Ok(vec![1, 2, 3])).unwrap();
    assert_eq!(buffer.size(), 0);
    assert_eq!(buffer.capacity(), 5);
    assert_eq!(
        DynVertexBuffer::<u32>::with_store(5, refused()).err(),
        Some(AllocationError::OutOfMemory)
    );
}

#[test]
fn a_capacity_that_cannot_be_had_is_an_error() {
    assert_eq!(
        DynVertexBuffer::<u64>::with_capacity(usize::MAX).err(),
        Some(AllocationError::OutOfMemory)
    );
}

#[test]
fn write_replaces_the_content() {
    let mut buffer = DynVertexBuffer::new().unwrap();
    let first = vertices(0, 5);
    assert_eq!(buffer.write(&first), Ok(()));
    assert_eq!(buffer.size(), 5);
    assert_eq!(buffer.get(), &first[..]);

    let second = vertices(100, 3);
    assert_eq!(buffer.write(&second), Ok(()));
    assert_eq!(buffer.size(), 3);
    assert_eq!(buffer.get(), &second[..]);

    let third = vertices(7, 40);
    assert_eq!(buffer.write(&third), Ok(()));
    assert_eq!(buffer.size(), 40);
    assert_eq!(buffer.get(), &third[..]);

    assert_eq!(buffer.write(&[]), Ok(()));
    assert_eq!(buffer.size(), 0);
    assert!(buffer.get().is_empty());
}

#[test]
fn write_doubles_the_capacity_until_the_data_fits() {
    let mut buffer = DynVertexBuffer::new().unwrap();
    buffer.write(&vertices(0, 3)).unwrap();
    assert_eq!(buffer.capacity(), 4);
    buffer.write(&vertices(0, 4)).unwrap();
    assert_eq!(buffer.capacity(), 4);
    buffer.write(&vertices(0, 5)).unwrap();
    assert_eq!(buffer.capacity(), 8);
    buffer.write(&vertices(0, 1)).unwrap();
    assert_eq!(buffer.capacity(), 8);
    buffer.write(&vertices(0, 33)).unwrap();
    assert_eq!(buffer.capacity(), 64);

    let mut buffer = DynVertexBuffer::with_capacity(3).unwrap();
    buffer.write(&vertices(0, 7)).unwrap();
    assert_eq!(buffer.capacity(), 12);

    let mut buffer = DynVertexBuffer::new().unwrap();
    buffer.write(&vertices(0, 1)).unwrap();
    assert_eq!(buffer.capacity(), 1);
}

#[test]
fn extend_appends_and_keeps_what_was_there() {
    let mut buffer = DynVertexBuffer::new().unwrap();
    assert_eq!(buffer.extend(&vertices(0, 3)), Ok(()));
    assert_eq!(buffer.size(), 3);
    assert_eq!(buffer.capacity(), 8);
    assert_eq!(buffer.extend(&vertices(3, 5)), Ok(()));
    assert_eq!(buffer.size(), 8);
    assert_eq!(buffer.capacity(), 8);
    assert_eq!(buffer.get(), &vertices(0, 8)[..]);

    // This one does not fit: the store is replaced.
    assert_eq!(buffer.extend(&vertices(8, 30)), Ok(()));
    assert_eq!(buffer.size(), 38);
    assert_eq!(buffer.capacity(), 64);
    assert_eq!(&buffer.get()[..8], &vertices(0, 8)[..]);
    assert_eq!(&buffer.get()[8..], &vertices(8, 30)[..]);

    assert_eq!(buffer.extend(&[]), Ok(()));
    assert_eq!(buffer.get(), &vertices(0, 38)[..]);
}

#[test]
fn extend_n_takes_the_first_items_of_an_iterator() {
    let mut buffer = DynVertexBuffer::new().unwrap();
    buffer.extend(&[1u32, 2]).unwrap();
    let mut source = (10u32..).into_iter();
    assert_eq!(buffer.extend_n(4, &mut source), Ok(()));
    assert_eq!(buffer.get(), &[1, 2, 10, 11, 12, 13]);
    assert_eq!(source.next(), Some(14));
    assert_eq!(buffer.extend_n(0, std::iter::empty()), Ok(()));
    assert_eq!(buffer.size(), 6);
    assert_eq!(buffer.extend_n(3, vec![7, 8, 9].into_iter()), Ok(()));
    assert_eq!(buffer.get(), &[1, 2, 10, 11, 12, 13, 7, 8, 9]);
    assert_eq!(buffer.capacity(), 16);
}

#[test]
fn extend_write_asks_for_each_new_element() {
    let mut buffer = DynVertexBuffer::new().unwrap();
    buffer.extend(&vertices(0, 2)).unwrap();
    assert_eq!(buffer.extend_write(9, |i| vertex(2 + i)), Ok(()));
    assert_eq!(buffer.size(), 11);
    assert_eq!(buffer.capacity(), 16);
    assert_eq!(buffer.get(), &vertices(0, 11)[..]);
    assert_eq!(buffer.extend_write(0, |_| unreachable!()), Ok(()));
    assert_eq!(buffer.size(), 11);
}

#[test]
fn reserve_gives_room_and_keeps_the_content() {
    let mut buffer = DynVertexBuffer::new().unwrap();
    buffer.extend(&vertices(0, 6)).unwrap();
    for n in [0, 1, 6, 8, 9, 100, 17, 1000] {
        let before = buffer.capacity();
        let replaced = buffer.reserve(n).unwrap();
        assert!(buffer.capacity() >= n);
        assert_eq!(replaced, n > before);
        assert_eq!(replaced, buffer.capacity() != before);
        assert_eq!(buffer.get(), &vertices(0, 6)[..]);
    }
    assert_eq!(buffer.capacity(), 1024);
}

#[test]
fn reserve_within_the_capacity_does_nothing() {
    let mut buffer = DynVertexBuffer::with_capacity(10).unwrap();
    buffer.extend(&vertices(0, 4)).unwrap();
    assert_eq!(buffer.reserve(10), Ok(false));
    assert_eq!(buffer.reserve(0), Ok(false));
    assert_eq!(buffer.reserve_with(7, refused()), Ok(false));
    assert_eq!(buffer.reserve_with(7, Ok(vec![vertex(9)])), Ok(false));
    assert_eq!(buffer.capacity(), 10);
    assert_eq!(buffer.get(), &vertices(0, 4)[..]);
}

#[test]
fn the_first_growth_gives_capacity_eight() {
    for n in 1..=8 {
        let mut buffer = DynVertexBuffer::<Vertex>::new().unwrap();
        assert_eq!(buffer.reserve(n), Ok(true));
        assert_eq!(buffer.capacity(), 8);

        let mut buffer = DynVertexBuffer::new().unwrap();
        buffer.extend(&vertices(0, n)).unwrap();
        assert_eq!(buffer.capacity(), 8);
    }
    let mut buffer = DynVertexBuffer::<Vertex>::new().unwrap();
    assert_eq!(buffer.reserve(0), Ok(false));
    assert_eq!(buffer.capacity(), 0);
    assert_eq!(buffer.reserve(9), Ok(true));
    assert_eq!(buffer.capacity(), 16);
}

#[test]
fn growth_at_least_doubles() {
    let mut buffer = DynVertexBuffer::<u8>::with_capacity(5).unwrap();
    assert_eq!(buffer.reserve(6), Ok(true));
    assert_eq!(buffer.capacity(), 10);
    assert_eq!(buffer.reserve(41), Ok(true));
    assert_eq!(buffer.capacity(), 80);
    let mut capacity = buffer.capacity();
    for _ in 0..6 {
        buffer.reserve(capacity + 1).unwrap();
        assert_eq!(buffer.capacity(), 2 * capacity);
        capacity = buffer.capacity();
    }
}

#[test]
fn the_growth_rules() {
    assert_eq!(grow_preserving(0, 0), Some(0));
    assert_eq!(grow_preserving(0, 1), Some(8));
    assert_eq!(grow_preserving(0, 8), Some(8));
    assert_eq!(grow_preserving(0, 9), Some(16));
    assert_eq!(grow_preserving(3, 3), Some(3));
    assert_eq!(grow_preserving(3, 4), Some(6));
    assert_eq!(grow_preserving(3, 25), Some(48));
    assert_eq!(grow_preserving(100, 7), Some(100));
    assert_eq!(grow_preserving(1, usize::MAX / 2 + 1), Some(usize::MAX / 2 + 1));
    assert_eq!(grow_preserving(1, usize::MAX / 2 + 2), None);
    assert_eq!(grow_preserving(3, usize::MAX), None);
    assert_eq!(grow_preserving(usize::MAX, usize::MAX), Some(usize::MAX));

    assert_eq!(grow_destructive(0, 0), Some(0));
    assert_eq!(grow_destructive(0, 1), Some(1));
    assert_eq!(grow_destructive(0, 3), Some(4));
    assert_eq!(grow_destructive(0, 8), Some(8));
    assert_eq!(grow_destructive(3, 4), Some(6));
    assert_eq!(grow_destructive(3, 25), Some(48));
    assert_eq!(grow_destructive(100, 7), Some(100));
    assert_eq!(grow_destructive(0, usize::MAX), None);
}

#[test]
fn clear_empties_the_buffer_and_keeps_the_capacity() {
    let mut buffer = DynVertexBuffer::new().unwrap();
    buffer.extend(&vertices(0, 20)).unwrap();
    assert_eq!(buffer.capacity(), 32);
    buffer.clear();
    assert_eq!(buffer.size(), 0);
    assert_eq!(buffer.capacity(), 32);
    assert!(buffer.get().is_empty());
    buffer.clear();
    assert_eq!(buffer.size(), 0);
    buffer.extend(&vertices(5, 2)).unwrap();
    assert_eq!(buffer.get(), &vertices(5, 2)[..]);
    assert_eq!(buffer.capacity(), 32);
}

#[test]
fn with_mapping_edits_in_place() {
    let mut buffer = DynVertexBuffer::new().unwrap();
    buffer.extend(&[1u32, 2, 3, 4]).unwrap();
    let sum = buffer.with_mapping(|elements| {
        let sum: u32 = elements.iter().sum();
        elements[0] = 10;
        elements.reverse();
        sum
    });
    assert_eq!(sum, 10);
    assert_eq!(buffer.get(), &[4, 3, 2, 10]);
    assert_eq!(buffer.size(), 4);
    assert_eq!(buffer.capacity(), 8);
    let length = DynVertexBuffer::<u32>::new().unwrap().with_mapping(|elements| elements.len());
    assert_eq!(length, 0);
}

#[test]
fn with_mapping_keeps_size_and_capacity() {
    for size in [0usize, 1, 5, 8, 9] {
        let mut buffer = DynVertexBuffer::new().unwrap();
        buffer.extend(&vertices(0, size)).unwrap();
        let capacity = buffer.capacity();
        let seen = buffer.with_mapping(|elements| {
            for element in elements.iter_mut() {
                element.color += 100;
            }
            elements.len()
        });
        assert_eq!(seen, size);
        assert_eq!(buffer.size(), size);
        assert_eq!(buffer.capacity(), capacity);
        for (i, element) in buffer.get().iter().enumerate() {
            assert_eq!(element.color, i as u32 + 100);
            assert_eq!(element.position, vertex(i).position);
        }
    }
}

#[test]
fn a_capacity_beyond_usize_is_an_error() {
    let mut buffer = DynVertexBuffer::new().unwrap();
    buffer.extend(&[1u8, 2, 3]).unwrap();
    assert_eq!(buffer.reserve(usize::MAX), Err(AllocationError::CapacityOverflow));
    assert_eq!(buffer.reserve_with(usize::MAX, granted(0)), Err(AllocationError::CapacityOverflow));
    assert_eq!(
        buffer.reserve_non_persistent_with(usize::MAX, granted(0)),
        Err(AllocationError::CapacityOverflow)
    );
    assert_eq!(
        buffer.extend_n(usize::MAX - 2, std::iter::repeat(0)),
        Err(AllocationError::CapacityOverflow)
    );
    assert_eq!(
        buffer.extend_write(usize::MAX, |_| 0),
        Err(AllocationError::CapacityOverflow)
    );
    assert_eq!(buffer.get(), &[1, 2, 3]);
    assert_eq!(buffer.capacity(), 8);
}

#[test]
fn a_refusal_of_the_allocator_leaves_the_buffer_as_it_was() {
    let mut buffer = DynVertexBuffer::new().unwrap();
    buffer.extend(&[1u64, 2, 3]).unwrap();
    // 2^60 elements of eight bytes are more than any allocation may hold.
    assert_eq!(buffer.reserve(1 << 60), Err(AllocationError::OutOfMemory));
    assert_eq!(buffer.get(), &[1, 2, 3]);
    assert_eq!(buffer.capacity(), 8);
    assert_eq!(
        buffer.extend_n(1 << 60, std::iter::repeat(0)),
        Err(AllocationError::OutOfMemory)
    );
    assert_eq!(buffer.extend_write(1 << 60, |_| 0), Err(AllocationError::OutOfMemory));
    assert_eq!(buffer.get(), &[1, 2, 3]);
    assert_eq!(buffer.capacity(), 8);

    assert_eq!(buffer.reserve_with(9, refused()), Err(AllocationError::OutOfMemory));
    assert_eq!(buffer.reserve_non_persistent_with(9, refused()), Err(AllocationError::OutOfMemory));
    assert_eq!(buffer.get(), &[1, 2, 3]);
    assert_eq!(buffer.capacity(), 8);
}

#[test]
fn a_granted_store_is_taken() {
    let mut buffer = DynVertexBuffer::new().unwrap();
    buffer.extend(&[1u64, 2, 3]).unwrap();
    assert_eq!(buffer.reserve_with(9, granted(16)), Ok(true));
    assert_eq!(buffer.get(), &[1, 2, 3]);
    assert_eq!(buffer.capacity(), 16);
    // What the store held before does not matter.
    assert_eq!(buffer.reserve_with(17, Ok(vec![5, 6, 7, 8])), Ok(true));
    assert_eq!(buffer.get(), &[1, 2, 3]);
    assert_eq!(buffer.capacity(), 32);

    assert_eq!(buffer.reserve_non_persistent_with(32, granted(64)), Ok(false));
    assert_eq!(buffer.get(), &[1, 2, 3]);
    assert_eq!(buffer.reserve_non_persistent_with(33, Ok(vec![5, 6])), Ok(true));
    assert!(buffer.get().is_empty());
    assert_eq!(buffer.size(), 0);
    assert_eq!(buffer.capacity(), 64);
}
