use elastic_pool::link_list::LinkedList;

fn drain_front(list: &mut LinkedList<i32>) -> Vec<i32> {
    let mut out = Vec::new();
    while let Some(x) = list.pop_front() {
        out.push(x);
    }
    out
}

#[test]
fn new_list_is_empty() {
    let list: LinkedList<i32> = LinkedList::new();
    assert_eq!(list.len(), 0);
    assert!(list.is_empty());
    assert_eq!(list.front(), None);
    assert_eq!(list.back(), None);
    let d: LinkedList<i32> = LinkedList::default();
    assert!(d.is_empty());
}

#[test]
fn pop_on_empty_gives_none() {
    let mut list: LinkedList<i32> = LinkedList::new();
    assert_eq!(list.pop_front(), None);
    assert_eq!(list.pop_back(), None);
    assert_eq!(list.len(), 0);
}

#[test]
fn push_back_pop_front_is_fifo() {
    let mut list = LinkedList::new();
    for i in 0..10 {
        list.push_back(i);
    }
    assert_eq!(list.len(), 10);
    assert_eq!(drain_front(&mut list), (0..10).collect::<Vec<_>>());
    assert!(list.is_empty());
}

#[test]
fn push_front_pop_back_is_fifo() {
    let mut list = LinkedList::new();
    for i in 0..10 {
        list.push_front(i);
    }
    let mut out = Vec::new();
    while let Some(x) = list.pop_back() {
        out.push(x);
    }
    assert_eq!(out, (0..10).collect::<Vec<_>>());
}

#[test]
fn push_front_pop_front_is_lifo() {
    let mut list = LinkedList::new();
    list.push_front(1);
    list.push_front(2);
    list.push_front(3);
    assert_eq!(list.pop_front(), Some(3));
    assert_eq!(list.pop_front(), Some(2));
    assert_eq!(list.pop_front(), Some(1));
    assert_eq!(list.pop_front(), None);
}

#[test]
fn len_is_pushes_minus_pops_across_growth() {
    let mut list = LinkedList::new();
    let mut model = std::collections::VecDeque::new();
    for i in 0..200 {
        match i % 5 {
            0 | 1 => {
                list.push_back(i);
                model.push_back(i);
            }
            2 => {
                list.push_front(i);
                model.push_front(i);
            }
            3 => assert_eq!(list.pop_front(), model.pop_front()),
            _ => assert_eq!(list.pop_back(), model.pop_back()),
        }
        assert_eq!(list.len(), model.len());
        assert_eq!(list.front(), model.front());
        assert_eq!(list.back(), model.back());
    }
    let expected: Vec<i32> = model.into_iter().collect();
    assert_eq!(drain_front(&mut list), expected);
}

#[test]
fn wrap_around_keeps_order() {
    let mut list = LinkedList::new();
    for i in 0..4 {
        list.push_back(i);
    }
    assert_eq!(list.pop_front(), Some(0));
    assert_eq!(list.pop_front(), Some(1));
    list.push_back(4);
    list.push_back(5);
    list.push_back(6);
    list.push_front(9);
    assert_eq!(drain_front(&mut list), vec![9, 2, 3, 4, 5, 6]);
}

#[test]
fn front_and_back_mut_edit_in_place() {
    let mut list = LinkedList::new();
    list.push_back(1);
    list.push_back(2);
    list.push_back(3);
    *list.front_mut().unwrap() = 10;
    *list.back_mut().unwrap() = 30;
    assert_eq!(list.front(), Some(&10));
    assert_eq!(list.back(), Some(&30));
    assert_eq!(drain_front(&mut list), vec![10, 2, 30]);
    let mut empty: LinkedList<i32> = LinkedList::new();
    assert!(empty.front_mut().is_none());
    assert!(empty.back_mut().is_none());
}

#[test]
fn clear_removes_everything() {
    let mut list = LinkedList::new();
    for i in 0..7 {
        list.push_back(i);
    }
    list.clear();
    assert_eq!(list.len(), 0);
    assert_eq!(list.pop_front(), None);
    list.push_back(42);
    assert_eq!(list.front(), Some(&42));
}

#[test]
fn iter_from_both_ends_with_exact_len() {
    let list = LinkedList::from_iter(vec![1, 2, 3, 4]);
    let mut it = list.iter();
    assert_eq!(it.len(), 4);
    assert_eq!(it.next(), Some(&1));
    assert_eq!(it.next_back(), Some(&4));
    assert_eq!(it.len(), 2);
    assert_eq!(it.next(), Some(&2));
    assert_eq!(it.next_back(), Some(&3));
    assert_eq!(it.len(), 0);
    assert_eq!(it.next(), None);
    assert_eq!(it.next_back(), None);
}

#[test]
fn iter_mut_edits_every_element() {
    let mut list = LinkedList::from_iter(vec![1, 2, 3]);
    {
        let mut it = list.iter_mut();
        assert_eq!(it.len(), 3);
        while let Some(x) = it.next() {
            *x *= 10;
        }
    }
    {
        let mut it = list.iter_mut();
        *it.next_back().unwrap() += 1;
    }
    assert_eq!(drain_front(&mut list), vec![10, 20, 31]);
}

#[test]
fn into_iter_drains_from_both_ends() {
    let list = LinkedList::from_iter(vec![1, 2, 3]);
    let mut it = list.into_iter();
    assert_eq!(it.len(), 3);
    assert_eq!(it.next_back(), Some(3));
    assert_eq!(it.next(), Some(1));
    assert_eq!(it.next(), Some(2));
    assert_eq!(it.next(), None);
    assert_eq!(it.len(), 0);
}

#[test]
fn extend_appends_in_order() {
    let mut list = LinkedList::from_iter(vec![1]);
    list.extend(vec![2, 3]);
    list.extend(Vec::new());
    assert_eq!(drain_front(&mut list), vec![1, 2, 3]);
}

#[test]
fn cursor_cycles_through_ghost_position() {
    let mut list = LinkedList::from_iter(vec![10, 20, 30]);
    let n = list.len();
    let mut cursor = list.cursor_mut();
    assert_eq!(cursor.index(), None);
    for k in 0..n {
        cursor.move_next();
        assert_eq!(cursor.index(), Some(k));
    }
    cursor.move_next();
    assert_eq!(cursor.index(), None);
    assert!(cursor.current().is_none());
    cursor.move_next();
    assert_eq!(cursor.index(), Some(0));
    assert_eq!(cursor.current(), Some(&mut 10));
}

#[test]
fn cursor_moves_backward_and_wraps() {
    let mut list = LinkedList::from_iter(vec![1, 2, 3]);
    let mut cursor = list.cursor_mut();
    cursor.move_prev();
    assert_eq!(cursor.index(), Some(2));
    assert_eq!(cursor.peek_prev(), Some(&2));
    assert_eq!(cursor.peek_next(), None);
    cursor.move_prev();
    cursor.move_prev();
    assert_eq!(cursor.index(), Some(0));
    assert_eq!(cursor.peek_prev(), None);
    assert_eq!(cursor.peek_next(), Some(&2));
    cursor.move_prev();
    assert_eq!(cursor.index(), None);
    assert_eq!(cursor.peek_next(), None);
    assert_eq!(cursor.peek_prev(), None);
    cursor.move_prev();
    assert_eq!(cursor.index(), Some(2));
}

#[test]
fn cursor_edits_through_current() {
    let mut list = LinkedList::from_iter(vec![1, 2, 3]);
    {
        let mut cursor = list.cursor_mut();
        cursor.move_next();
        cursor.move_next();
        *cursor.current().unwrap() = 20;
    }
    assert_eq!(drain_front(&mut list), vec![1, 20, 3]);
}

#[test]
fn cursor_on_empty_list_stays_at_ghost() {
    let mut list: LinkedList<i32> = LinkedList::new();
    let mut cursor = list.cursor_mut();
    cursor.move_next();
    assert_eq!(cursor.index(), None);
    cursor.move_prev();
    assert_eq!(cursor.index(), None);
    assert!(cursor.current().is_none());
}
