use anellus::cursor::{advance, plan_read, plan_write};
use anellus::Anellus;
use anellus::Errors;

#[test]
fn read_from_empty() {
    let mut r: Anellus<u32> = Anellus::new(3);

    assert!(r.pull().is_err());
}

#[test]
fn basic_write() {
    let mut r: Anellus<u32> = Anellus::new(3);

    assert!(r.push(1).is_ok());
}

#[test]
fn write_to_full() {
    let mut r: Anellus<u32> = Anellus::new(3);

    assert!(r.push(1).is_ok());
    assert!(r.push(2).is_ok());
    assert!(r.push(3).is_ok());
    assert!(r.push(4).is_err());
}

#[test]
fn can_pull() {
    let mut r: Anellus<u32> = Anellus::new(3);

    r.push(1).unwrap();
    r.push(2).unwrap();
    match r.pull() {
        Ok(x) => assert_eq!(x, 1),
        Err(x) => panic!("{:?}", x),
    }
    assert!(r.push(3).is_ok());
    assert!(r.push(4).is_ok());
    match r.pull() {
        Ok(x) => assert_eq!(x, 2),
        Err(x) => panic!("{:?}", x),
    }
    match r.pull() {
        Ok(x) => assert_eq!(x, 3),
        Err(x) => panic!("{:?}", x),
    }
    match r.pull() {
        Ok(x) => assert_eq!(x, 4),
        Err(x) => panic!("{:?}", x),
    }

    assert!(r.pull().is_err());
}

#[test]
fn empty_and_full_are_told_apart() {
    let mut r: Anellus<u32> = Anellus::new(3);
    assert_eq!(r.pull(), Err(Errors::Empty));
    assert_eq!(r.push(1), Ok(()));
    assert_eq!(r.push(2), Ok(()));
    assert_eq!(r.push(3), Ok(()));
    assert_eq!(r.push(4), Err(Errors::Full));
    assert_eq!(r.pull(), Ok(1));
    assert_eq!(r.pull(), Ok(2));
    assert_eq!(r.pull(), Ok(3));
    assert_eq!(r.pull(), Err(Errors::Empty));
}

#[test]
fn exactly_capacity_writes_succeed() {
    let n: u64 = 7;
    let mut r: Anellus<u64> = Anellus::new(n as usize);
    for v in 0..n {
        assert_eq!(r.push(v), Ok(()));
    }
    assert_eq!(r.push(n), Err(Errors::Full));
    assert_eq!(r.pull(), Ok(0));
    assert_eq!(r.push(n), Ok(()));
    assert_eq!(r.push(n + 1), Err(Errors::Full));
}

#[test]
fn zero_capacity_is_always_full_and_empty() {
    let mut r: Anellus<u8> = Anellus::new(0);
    assert_eq!(r.push(9), Err(Errors::Full));
    assert_eq!(r.pull(), Err(Errors::Empty));
}

#[test]
fn capacity_one_alternates() {
    let mut r: Anellus<i32> = Anellus::new(1);
    for k in 0..10 {
        assert_eq!(r.push(k), Ok(()));
        assert_eq!(r.push(k + 100), Err(Errors::Full));
        assert_eq!(r.pull(), Ok(k));
        assert_eq!(r.pull(), Err(Errors::Empty));
    }
}

#[test]
fn reads_follow_writes_in_order_across_many_wraps() {
    let mut r: Anellus<u64> = Anellus::new(4);
    let mut written: Vec<u64> = Vec::new();
    let mut read: Vec<u64> = Vec::new();
    let mut next: u64 = 0;
    for round in 0..50u64 {
        for _ in 0..(round % 5) {
            if r.push(next).is_ok() {
                written.push(next);
            }
            next += 1;
        }
        for _ in 0..(round % 3) {
            if let Ok(v) = r.pull() {
                read.push(v);
            }
        }
    }
    while let Ok(v) = r.pull() {
        read.push(v);
    }
    assert_eq!(read, written);
}

#[test]
fn values_come_back_bit_for_bit() {
    let mut r: Anellus<u64> = Anellus::new(3);
    let values: [u64; 3] = [u64::MAX, 0x8000_0000_0000_0001, 0];
    for v in values {
        assert_eq!(r.push(v), Ok(()));
    }
    for v in values {
        assert_eq!(r.pull(), Ok(v));
    }
}

#[test]
fn each_producer_keeps_its_order_and_nothing_is_lost() {
    let producers: u64 = 3;
    let stock: u64 = 20;
    let mut r: Anellus<u64> = Anellus::new(5);
    let mut sent: Vec<u64> = vec![1; producers as usize];
    let mut last_seen: Vec<u64> = vec![0; producers as usize];
    let mut total: u64 = 0;
    let mut turn: u64 = 0;
    while total < producers * stock {
        let p = turn % producers;
        if sent[p as usize] <= stock && r.push((p << 32) + sent[p as usize]).is_ok() {
            sent[p as usize] += 1;
        }
        if turn % 2 == 0 {
            if let Ok(v) = r.pull() {
                let owner = (v >> 32) as usize;
                let counter = v & 0xffff_ffff;
                assert!(counter > last_seen[owner]);
                last_seen[owner] = counter;
                total += 1;
            }
        }
        turn += 1;
    }
    assert_eq!(total, producers * stock);
    assert_eq!(r.pull(), Err(Errors::Empty));
}

#[test]
fn cursor_advances_and_wraps() {
    assert_eq!(advance(0, 5), 1);
    assert_eq!(advance(3, 5), 4);
    assert_eq!(advance(4, 5), 0);
}

#[test]
fn write_plan_refuses_the_slot_of_the_reader() {
    assert_eq!(plan_write(0, 1, 5), Ok(2));
    assert_eq!(plan_write(0, 4, 5), Err(Errors::Full));
    assert_eq!(plan_write(3, 4, 5), Ok(0));
    assert_eq!(plan_write(4, 3, 5), Err(Errors::Full));
}

#[test]
fn read_plan_refuses_the_slot_of_the_writer() {
    assert_eq!(plan_read(0, 1, 5), Err(Errors::Empty));
    assert_eq!(plan_read(0, 3, 5), Ok(1));
    assert_eq!(plan_read(4, 1, 5), Ok(0));
    assert_eq!(plan_read(4, 0, 5), Err(Errors::Empty));
}
