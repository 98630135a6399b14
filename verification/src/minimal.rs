//! A minimal module: it keeps a few numbers.
use vstd::prelude::*;
use crate::error::{Error, ENOMEM};
use crate::memory::{room_tried, try_room};

verus! {

/// The minimal module.
#[derive(Debug)]
pub struct RustMinimal {
    pub numbers: Vec<i32>,
}

/// Adds a number, given whether there is memory for it.
fn push_reserved(numbers: &mut Vec<i32>, number: i32, reserved: bool) -> (r: Result<(), Error>)
    ensures
        reserved ==> r == Ok::<(), Error>(()) && final(numbers)@ == old(numbers)@.push(number),
        !reserved ==> r == Err::<(), Error>(Error(ENOMEM)) && final(numbers)@ == old(numbers)@,
{
    if !reserved {
        return Err(Error(ENOMEM));
    }
    numbers.push(number);
    Ok(())
}

impl RustMinimal {
    /// Sets the module up with a buffer for its numbers, given whether there is memory for each of
    /// them.
    pub fn init_reserved(numbers: Vec<i32>, first: bool, second: bool, third: bool) -> (r: Result<
        RustMinimal,
        Error,
    >)
        ensures
            first && second && third ==> (r matches Ok(m) && m.numbers@ == numbers@ + seq![
                72i32,
                108i32,
                200i32,
            ]),
            !(first && second && third) ==> r == Err::<RustMinimal, Error>(Error(ENOMEM)),
    {
        let ghost before = numbers@;
        let mut numbers: Vec<i32> = numbers;
        match push_reserved(&mut numbers, 72, first) {
            Ok(_) => {},
            Err(e) => return Err(e),
        }
        match push_reserved(&mut numbers, 108, second) {
            Ok(_) => {},
            Err(e) => return Err(e),
        }
        match push_reserved(&mut numbers, 200, third) {
            Ok(_) => {},
            Err(e) => return Err(e),
        }
        assert(numbers@ =~= before + seq![72i32, 108i32, 200i32]);
        Ok(RustMinimal { numbers })
    }

    /// Sets the module up. It fails where there is no memory for its numbers.
    pub fn init() -> (r: Result<RustMinimal, Error>)
        ensures
            r matches Ok(m) ==> m.numbers@ == seq![72i32, 108i32, 200i32],
            r is Err ==> r == Err::<RustMinimal, Error>(Error(ENOMEM)),
            r is Ok ==> exists|v: Vec<i32>| #[trigger] room_tried(v, 3, true) && v@.len() == 0,
            r is Err ==> exists|v: Vec<i32>, n: usize| #[trigger]
                room_tried(v, n, false) && v@.len() == 0 && 1 <= n <= 3,
    {
        let mut numbers: Vec<i32> = Vec::new();
        let first: bool = try_room(&mut numbers, 1);
        let second: bool = first && try_room(&mut numbers, 2);
        let third: bool = second && try_room(&mut numbers, 3);
        assert(numbers@ + seq![72i32, 108i32, 200i32] =~= seq![72i32, 108i32, 200i32]);
        RustMinimal::init_reserved(numbers, first, second, third)
    }
}

} // verus!
