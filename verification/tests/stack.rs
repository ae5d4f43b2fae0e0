use synapse::stack::{SimpleStack, Stack, EXPAND_DOWN, EXPAND_UP};
use synapse::types::Address;

fn up_stack(base: Address, size: usize) -> Stack<usize, EXPAND_UP> {
    Stack::<usize, EXPAND_UP>::new(base, vec![0usize; size])
}

fn down_stack(base: Address, size: usize) -> Stack<usize, EXPAND_DOWN> {
    Stack::<usize, EXPAND_DOWN>::new(base, vec![0usize; size])
}

#[test]
fn stack_test_create_stack() {
    let stack = up_stack(0x1000, 10);

    assert_eq!(stack.capacity(), 10);
    assert_eq!(stack.len(), 0);
    assert_eq!(stack.capacity(), 10);
    assert_eq!(stack.available(), 10);
    assert_eq!(stack.base(), 0x1000 as Address);
    assert_eq!(stack.top(), 0x1000 as Address);
    assert_eq!(stack.limit() as usize, 0x1000 + 10 * core::mem::size_of::<usize>());
}

#[test]
fn test_expand_up_push() {
    let base: Address = 0x8000;
    let mut stack = up_stack(base, 10);
    stack.push(0x12345678);
    stack.push(0x9abcdef0);
    stack.push(0xffffffff);
    assert_eq!(stack.index(0), 0x12345678);
    assert_eq!(stack.index(1), 0x9abcdef0);
    assert_eq!(stack.index(2), 0xffffffff);
    assert_eq!(stack.get(0), Some(0x12345678));
    assert_eq!(stack.get(1), Some(0x9abcdef0));
    assert_eq!(stack.get(2), Some(0xffffffff));
    assert_eq!(stack.get(3), None);
    assert_eq!(stack.find(0x9abcdef0), Some(1));
    assert_eq!(stack.find(0xffffffff), Some(2));
    assert_eq!(stack.find(5150), None);
    assert_eq!(stack.capacity(), 10);
    assert_eq!(stack.len(), 3);
    assert_eq!(stack.capacity(), 10);
    assert_eq!(stack.available(), 7);
    assert_eq!(stack.base(), base);
    assert_eq!(stack.top(), (base as usize + 3 * core::mem::size_of::<usize>()) as Address);
}

#[test]
fn test_expand_down_push() {
    let base: Address = 0x8000;
    let mut stack = down_stack(base, 10);
    stack.push(0x12345678);
    stack.push(0x9abcdef0);
    stack.push(0xffffffff);
    assert_eq!(stack.index(9), 0x12345678);
    assert_eq!(stack.index(8), 0x9abcdef0);
    assert_eq!(stack.index(7), 0xffffffff);
    assert_eq!(stack.get(0), Some(0x12345678));
    assert_eq!(stack.get(1), Some(0x9abcdef0));
    assert_eq!(stack.get(2), Some(0xffffffff));
    assert_eq!(stack.get(3), None);
    assert_eq!(stack.find(0x9abcdef0), Some(1));
    assert_eq!(stack.find(0xffffffff), Some(2));
    assert_eq!(stack.find(5150), None);
    assert_eq!(stack.capacity(), 10);
    assert_eq!(stack.len(), 3);
    assert_eq!(stack.capacity(), 10);
    assert_eq!(stack.available(), 7);
    assert_eq!(stack.base(), (base as usize + 10 * core::mem::size_of::<usize>()) as Address);
    assert_eq!(stack.top(), (base as usize + 7 * core::mem::size_of::<usize>()) as Address);
}

#[test]
fn test_iterate() {
    let mut expand_up_stack = up_stack(0x1000, 10);
    let mut expand_dn_stack = down_stack(0x2000, 10);

    expand_up_stack.push(0x12345678);
    expand_up_stack.push(0x9abcdef0);
    expand_up_stack.push(0xffffffff);

    expand_dn_stack.push(0x12345678);
    expand_dn_stack.push(0x9abcdef0);
    expand_dn_stack.push(0xffffffff);

    let mut iter_up = expand_up_stack.iter();
    let mut iter_dn = expand_dn_stack.iter();

    assert_eq!(iter_up.next(), Some(0x12345678));
    assert_eq!(iter_dn.next(), Some(0x12345678));
    assert_eq!(iter_up.next(), Some(0x9abcdef0));
    assert_eq!(iter_dn.next(), Some(0x9abcdef0));
    assert_eq!(iter_up.next(), Some(0xffffffff));
    assert_eq!(iter_dn.next(), Some(0xffffffff));
    assert_eq!(iter_up.next(), None);
    assert_eq!(iter_dn.next(), None);
}

#[test]
fn test_reverse_iterate() {
    let mut expand_up_stack = up_stack(0x1000, 10);
    let mut expand_dn_stack = down_stack(0x2000, 10);

    expand_up_stack.push(0x12345678);
    expand_up_stack.push(0x9abcdef0);
    expand_up_stack.push(0xffffffff);

    expand_dn_stack.push(0x12345678);
    expand_dn_stack.push(0x9abcdef0);
    expand_dn_stack.push(0xffffffff);

    let mut iter_up = expand_up_stack.reverse_iter();
    let mut iter_dn = expand_dn_stack.reverse_iter();

    assert_eq!(iter_up.next(), Some(0xffffffff));
    assert_eq!(iter_dn.next(), Some(0xffffffff));
    assert_eq!(iter_up.next(), Some(0x9abcdef0));
    assert_eq!(iter_dn.next(), Some(0x9abcdef0));
    assert_eq!(iter_up.next(), Some(0x12345678));
    assert_eq!(iter_dn.next(), Some(0x12345678));
    assert_eq!(iter_up.next(), None);
    assert_eq!(iter_dn.next(), None);
}

#[test]
fn stack_pop_gives_back_pushes_in_reverse() {
    let mut up = up_stack(0x1000, 3);
    let mut down = down_stack(0x2000, 3);
    for v in [1usize, 2, 3] {
        up.push(v);
        down.push(v);
    }
    assert!(up.is_full());
    assert!(down.is_full());
    for v in [3usize, 2, 1] {
        assert_eq!(up.pop(), Some(v));
        assert_eq!(down.pop(), Some(v));
    }
    assert_eq!(up.pop(), None);
    assert_eq!(down.pop(), None);
    assert!(up.is_empty());
    assert!(down.is_empty());
}

#[test]
fn stack_down_limit_is_block_start() {
    let stack = down_stack(0x3000, 4);
    assert_eq!(stack.limit(), 0x3000);
    assert_eq!(stack.base(), 0x3000 + 4 * 8);
}

#[test]
fn stack_remove_index_moves_last_into_place() {
    let mut stack = up_stack(0x1000, 5);
    for v in [10usize, 20, 30, 40] {
        stack.push(v);
    }
    assert_eq!(stack.remove_index(1), Some(20));
    assert_eq!(stack.len(), 3);
    assert_eq!(stack.get(0), Some(10));
    assert_eq!(stack.get(1), Some(40));
    assert_eq!(stack.get(2), Some(30));
    assert_eq!(stack.remove_index(7), None);
    assert_eq!(stack.len(), 3);
}

#[test]
fn stack_swap_and_truncate() {
    let mut stack = down_stack(0x1000, 5);
    for v in [1usize, 2, 3] {
        stack.push(v);
    }
    assert!(stack.swap(0, 2));
    assert_eq!(stack.get(0), Some(3));
    assert_eq!(stack.get(2), Some(1));
    assert!(!stack.swap(0, 3));
    assert_eq!(stack.truncate(1), 1);
    assert_eq!(stack.get(0), Some(3));
    assert_eq!(stack.get(1), None);
}

#[test]
fn stack_find_gives_first_pushed_match_in_both_directions() {
    let mut stack = down_stack(0x1000, 5);
    for v in [7usize, 8, 7] {
        stack.push(v);
    }
    assert_eq!(stack.find(7), Some(0));
    assert_eq!(stack.find(9), None);
    let mut up = up_stack(0x1000, 5);
    for v in [7usize, 8, 7] {
        up.push(v);
    }
    assert_eq!(up.find(7), Some(0));
}

#[test]
fn stack_swap_absolute_and_iterator_position() {
    let mut stack = down_stack(0x1000, 4);
    for v in [1usize, 2] {
        stack.push(v);
    }
    // expanding down, the two elements sit at array positions 3 and 2
    assert!(!stack.swap_absolute(0, 1));
    assert!(!stack.swap_absolute(0, 3));
    assert!(stack.swap_absolute(2, 3));
    assert_eq!(stack.get(0), Some(2));
    assert_eq!(stack.get(1), Some(1));
    let mut up = up_stack(0x1000, 4);
    for v in [1usize, 2] {
        up.push(v);
    }
    assert!(up.swap_absolute(0, 1));
    assert_eq!(up.index(0), 2);
    assert_eq!(up.index(1), 1);

    let mut it = up.iter();
    assert_eq!(it.get_index(), 0);
    it.next();
    assert_eq!(it.get_index(), 1);
    let it = up.iter().rev();
    assert_eq!(it.get_index(), 1);
}

#[test]
fn stack_swap_absolute_down_stack_slots() {
    let mut d = down_stack(0x1000, 10);
    d.push(1);
    d.push(2);
    d.push(3);
    assert!(d.swap_absolute(7, 9));
    assert_eq!(d.index(7), 1);
    assert_eq!(d.index(9), 3);
    assert_eq!(d.get(0), Some(3));
    assert_eq!(d.get(2), Some(1));
    assert!(!d.swap_absolute(0, 1));
    assert_eq!(d.get(0), Some(3));
}
