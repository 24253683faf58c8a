use array_init::{
    array_init, array_init_copy, from_iter, from_iter_copy, try_array_init, try_array_init_copy,
    IsArray,
};
use std::cell::Cell;
use std::rc::Rc;

/// An element that counts its own releases.
struct Counted {
    value: usize,
    releases: Rc<Cell<usize>>,
}

impl Drop for Counted {
    fn drop(&mut self) {
        self.releases.set(self.releases.get() + 1);
    }
}

fn counted(value: usize, releases: &Rc<Cell<usize>>) -> Counted {
    Counted { value, releases: Rc::clone(releases) }
}

#[test]
fn squares_fill_forward() {
    let arr: [u32; 5] = array_init(|i| (i * i) as u32);
    assert_eq!(arr, [0, 1, 4, 9, 16]);
}

#[test]
fn successive_squares_fill_fifty() {
    let arr: [u32; 50] = array_init(|i| (i * i) as u32);
    for (i, value) in arr.iter().enumerate() {
        assert_eq!(*value, (i * i) as u32);
    }
}

#[test]
fn initializer_is_called_in_index_order() {
    let mut seen: Vec<usize> = Vec::new();
    let arr: [usize; 6] = array_init(|i| {
        seen.push(i);
        i + 100
    });
    assert_eq!(seen, vec![0, 1, 2, 3, 4, 5]);
    assert_eq!(arr, [100, 101, 102, 103, 104, 105]);
}

#[test]
fn initializer_may_carry_state() {
    let mut last = 1u64;
    let mut secondlast = 0u64;
    let fibonacci: [u64; 10] = array_init(|_| {
        let this = last + secondlast;
        secondlast = last;
        last = this;
        this
    });
    assert_eq!(fibonacci, [1, 2, 3, 5, 8, 13, 21, 34, 55, 89]);
}

#[test]
fn array_init_keeps_every_element_live() {
    let releases = Rc::new(Cell::new(0));
    let arr: [Counted; 4] = array_init(|i| counted(i * 3, &releases));
    assert_eq!(releases.get(), 0);
    assert_eq!(arr[0].value, 0);
    assert_eq!(arr[1].value, 3);
    assert_eq!(arr[2].value, 6);
    assert_eq!(arr[3].value, 9);
    drop(arr);
    assert_eq!(releases.get(), 4);
}

#[test]
fn array_init_of_length_zero_never_calls() {
    let mut calls = 0;
    let arr: [String; 0] = array_init(|_| {
        calls += 1;
        String::new()
    });
    assert_eq!(arr.len(), 0);
    assert_eq!(calls, 0);
}

#[test]
fn try_array_init_succeeds_without_error() {
    let out: Result<[u8; 3], String> = try_array_init(|i| Ok((i as u8) + 7));
    assert_eq!(out, Ok([7, 8, 9]));
}

#[test]
fn try_array_init_fails_at_index_two() {
    let releases = Rc::new(Cell::new(0));
    let mut calls = 0;
    let out: Result<[Counted; 4], &str> = try_array_init(|i| {
        calls += 1;
        if i == 2 {
            Err("boom")
        } else {
            Ok(counted(i, &releases))
        }
    });
    match out {
        Err(error) => assert_eq!(error, "boom"),
        Ok(_) => panic!("the initializer failed at index 2"),
    }
    assert_eq!(calls, 3);
    assert_eq!(releases.get(), 2);
}

#[test]
fn try_array_init_releases_exactly_what_was_made() {
    for k in 0..6usize {
        let releases = Rc::new(Cell::new(0));
        let made = Rc::new(Cell::new(0));
        let out: Result<[Counted; 6], usize> = try_array_init(|i| {
            if i == k {
                Err(i)
            } else {
                made.set(made.get() + 1);
                Ok(counted(i, &releases))
            }
        });
        match out {
            Err(at) => assert_eq!(at, k),
            Ok(_) => panic!("the initializer failed at index {}", k),
        }
        assert_eq!(made.get(), k);
        assert_eq!(releases.get(), k);
    }
}

#[test]
fn try_array_init_reports_the_first_error() {
    let out: Result<[u8; 5], usize> = try_array_init(|i| if i >= 1 { Err(i) } else { Ok(0) });
    assert_eq!(out, Err(1));
}

#[test]
fn try_array_init_of_length_zero_never_calls() {
    let mut calls = 0;
    let out: Result<[u8; 0], &str> = try_array_init(|_| {
        calls += 1;
        Err("never asked")
    });
    assert_eq!(out, Ok([]));
    assert_eq!(calls, 0);
}

#[test]
fn from_iter_takes_a_cycle() {
    let four = [1u32, 2, 3, 4];
    let iter = four.iter().cloned().cycle();
    let arr: [u32; 50] = from_iter(iter).unwrap();
    for (i, value) in arr.iter().enumerate() {
        assert_eq!(*value, (i % 4) as u32 + 1);
    }
}

#[test]
fn from_iter_takes_exactly_the_length() {
    let mut source = vec![10u8, 20, 30, 40, 50].into_iter();
    let arr: Option<[u8; 3]> = from_iter(&mut source);
    assert_eq!(arr, Some([10, 20, 30]));
    assert_eq!(source.next(), Some(40));
    assert_eq!(source.next(), Some(50));
    assert_eq!(source.next(), None);
}

#[test]
fn from_iter_of_exact_length() {
    let arr: Option<[char; 3]> = from_iter(vec!['a', 'b', 'c'].into_iter());
    assert_eq!(arr, Some(['a', 'b', 'c']));
}

#[test]
fn from_iter_of_short_source_is_none() {
    let releases = Rc::new(Cell::new(0));
    let source: Vec<Counted> = (0..3).map(|i| counted(i, &releases)).collect();
    let out: Option<[Counted; 5]> = from_iter(source.into_iter());
    assert!(out.is_none());
    assert_eq!(releases.get(), 3);
}

#[test]
fn from_iter_releases_each_consumed_item_once() {
    for available in 0..5usize {
        let releases = Rc::new(Cell::new(0));
        let source: Vec<Counted> = (0..available).map(|i| counted(i, &releases)).collect();
        let out: Option<[Counted; 5]> = from_iter(source.into_iter());
        assert!(out.is_none());
        assert_eq!(releases.get(), available);
    }
}

#[test]
fn from_iter_of_length_zero() {
    let mut source = vec![1u8, 2].into_iter();
    let arr: Option<[u8; 0]> = from_iter(&mut source);
    assert_eq!(arr, Some([]));
    assert_eq!(source.next(), Some(1));
    let none: Option<[u8; 0]> = from_iter(Vec::<u8>::new().into_iter());
    assert_eq!(none, Some([]));
}

#[test]
fn array_init_copy_fills_forward() {
    let arr: [u32; 5] = array_init_copy(|i| (i * i) as u32);
    assert_eq!(arr, [0, 1, 4, 9, 16]);
    let mut seen: Vec<usize> = Vec::new();
    let order: [usize; 4] = array_init_copy(|i| {
        seen.push(i);
        i
    });
    assert_eq!(order, [0, 1, 2, 3]);
    assert_eq!(seen, vec![0, 1, 2, 3]);
    let empty: [u64; 0] = array_init_copy(|_| panic!("a container of no elements asks nothing"));
    assert_eq!(empty.len(), 0);
}

#[test]
fn from_iter_copy_matches_from_iter() {
    let four = [1u32, 2, 3, 4];
    let arr: [u32; 50] = from_iter_copy(four.iter().cloned().cycle()).unwrap();
    let same: [u32; 50] = from_iter(four.iter().cloned().cycle()).unwrap();
    assert_eq!(arr, same);
    let short: Option<[u32; 5]> = from_iter_copy(four.iter().cloned());
    assert_eq!(short, None);
    let mut source = vec![7u8, 8, 9].into_iter();
    let two: Option<[u8; 2]> = from_iter_copy(&mut source);
    assert_eq!(two, Some([7, 8]));
    assert_eq!(source.next(), Some(9));
}

#[test]
fn is_array_reports_the_length() {
    assert_eq!(<[u8; 0] as IsArray>::len(), 0);
    assert_eq!(<[u8; 1] as IsArray>::len(), 1);
    assert_eq!(<[String; 128] as IsArray>::len(), 128);
    assert_eq!(<[u64; 1000] as IsArray>::len(), 1000);
}

#[test]
fn is_array_set_replaces_one_element() {
    let mut arr = [1u8, 2, 3];
    IsArray::set(&mut arr, 1, 9);
    assert_eq!(arr, [1, 9, 3]);
    IsArray::set(&mut arr, 0, 4);
    IsArray::set(&mut arr, 2, 5);
    assert_eq!(arr, [4, 9, 5]);
}

#[test]
fn is_array_assemble_keeps_the_order() {
    let arr = <[u16; 4] as IsArray>::assemble(vec![4, 3, 2, 1]);
    assert_eq!(arr, [4, 3, 2, 1]);
    let words = <[String; 2] as IsArray>::assemble(vec![String::from("a"), String::from("b")]);
    assert_eq!(words, [String::from("a"), String::from("b")]);
}

#[test]
fn try_array_init_copy_matches_try_array_init() {
    let ok: Result<[u8; 3], String> = try_array_init_copy(|i| Ok((i as u8) + 7));
    assert_eq!(ok, Ok([7, 8, 9]));
    let mut calls = 0;
    let failed: Result<[u8; 4], &str> = try_array_init_copy(|i| {
        calls += 1;
        if i == 2 {
            Err("boom")
        } else {
            Ok(i as u8)
        }
    });
    assert_eq!(failed, Err("boom"));
    assert_eq!(calls, 3);
    let empty: Result<[u8; 0], &str> = try_array_init_copy(|_| Err("never asked"));
    assert_eq!(empty, Ok([]));
}
