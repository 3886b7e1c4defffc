use res_gen::ttuple::{Get, GetSome, HList, Nil, Peek, Pop, Ttuple};

#[test]
fn can_borrow_items_by_type() {
    let t = Ttuple(
        2i32,
        Ttuple("first", Ttuple(vec![1i32, 2, 3], Ttuple::new(Some(false)))),
    );
    let two: &i32 = t.get();
    let one: &&str = t.get();
    assert_eq!(two, &2);
    assert_eq!(one, &"first");
}

#[test]
fn can_mutably_borrow_items_by_type() {
    let tmp = Vec::from([1i32, 2, 3]);
    let mut t = Ttuple(2i32, Ttuple("first", Ttuple::new(tmp)));
    *t.get_mut() = 3;
    *t.get_mut() = "updated";
    let v: &mut Vec<i32> = t.get_mut();
    for i in 0..v.len() {
        v[i] *= 2
    }
    assert_eq!(
        t,
        Ttuple(3i32, Ttuple("updated", Ttuple::new(vec![2i32, 4, 6])))
    );
}

#[test]
fn getting_anything_from_nil_gives_none() {
    let n = Nil();
    let g: Option<&i32> = n.get_some();

    if let Some(v) = g {
        unreachable!("got `{v:#?}` when should've gotten `None`")
    }

    assert_eq!(g, None)
}

#[test]
fn can_get_some_from_head() {
    let t = Ttuple(1i32, Nil());
    let g: Option<&i32> = t.get_some();

    if let Some(v) = g {
        assert_eq!(v, &1i32)
    } else {
        unreachable!("got `{g:#?}` when should've gotten `1i32`")
    }
}

#[test]
fn can_get_none_if_not_in_ttuple() {
    let t = Ttuple(1i32, Ttuple(true, Nil()));
    let g: Option<&&str> = t.get_some();

    if let Some(v) = g {
        unreachable!("got `{v:#?}` when should've gotten `None`")
    } else {
        assert_eq!(g, None)
    }
}

#[test]
fn get_some_can_be_used_to_check_if_ttuple_contains_type() {
    let t = Ttuple(1i32, Ttuple("str", Ttuple::new(false)));

    let yes: Option<&bool> = t.get_some();
    if let Some(_) = yes {
        assert!(true, "{t:#?} contains a boolean");
    };

    let no: Option<&String> = t.get_some();
    if let None = no {
        assert!(true, "{t:#?} does not contain a String");
    };

    let nil: Option<&Nil> = t.get_some();
    if let Some(_) = nil {
        assert!(true, "all Ttuples always contain Nil");
    };
}

#[test]
fn can_pop_head() {
    let tmp = Vec::from([1i32, 2, 3]);
    let tt = Ttuple(2i32, Ttuple("first", Ttuple::new(tmp)));
    let (h, t) = tt.pop();
    assert_eq!(h, 2);
    assert_eq!(t, Ttuple("first", Ttuple::new(vec![1i32, 2, 3])));
    let (i, u) = t.pop();
    assert_eq!(i, "first");
    assert_eq!(u, Ttuple::new(vec![1i32, 2, 3]));
}

#[test]
fn can_peek_head() {
    let tmp = Vec::from([1i32, 2, 3]);
    let tt = Ttuple(2i32, Ttuple("first", Ttuple::new(tmp)));
    let h = tt.peek();
    assert_eq!(h, &2);
    assert_eq!(
        tt,
        Ttuple(2i32, Ttuple("first", Ttuple::new(vec![1i32, 2, 3])))
    );
}

#[test]
fn nil_extends_nil() {
    let n1 = Nil();
    let n2 = Nil();

    assert_eq!(n1 + n2, Nil());
}

#[test]
fn ttuple_extends_nil() {
    let n1 = Nil();
    let t1 = Ttuple(
        1i32,
        Ttuple("first", Ttuple(vec![1i32, 2, 3], Ttuple::new(Some(false)))),
    );

    assert_eq!(
        n1 + t1,
        Ttuple(
            1i32,
            Ttuple("first", Ttuple(vec![1i32, 2, 3], Ttuple::new(Some(false)))),
        )
    );
}

#[test]
fn nil_extends_ttuple() {
    let n1 = Nil();
    let t1 = Ttuple(
        1i32,
        Ttuple("first", Ttuple(vec![1i32, 2, 3], Ttuple::new(Some(false)))),
    );

    assert_eq!(
        t1 + n1,
        Ttuple(
            1i32,
            Ttuple("first", Ttuple(vec![1i32, 2, 3], Ttuple::new(Some(false)))),
        )
    );
}

#[test]
fn ttuple_extends_ttuple() {
    let t1 = Ttuple(
        1i32,
        Ttuple("first", Ttuple(vec![1i32, 2, 3], Ttuple::new(Some(false)))),
    );
    let t2 = Ttuple(2i32, Ttuple::new("second"));
    let t3 = t1 + t2;

    assert_eq!(
        t3,
        Ttuple(
            1i32,
            Ttuple(
                "first",
                Ttuple(
                    vec![1i32, 2, 3],
                    Ttuple(Some(false), Ttuple(2i32, Ttuple::new("second")))
                )
            )
        )
    );
}

#[test]
fn a_list_knows_its_length() {
    assert_eq!(Nil().len(), 0);
    assert_eq!(Ttuple::new('a').len(), 1);
    let t = Ttuple(1i32, Ttuple("str", Ttuple::new(false)));
    assert_eq!(t.len(), 3);
    let longer = t.prepend(0u8);
    assert_eq!(longer.len(), 4);
    assert_eq!(longer, Ttuple(0u8, Ttuple(1i32, Ttuple("str", Ttuple::new(false)))));
}

#[test]
fn get_some_finds_the_first_of_its_type() {
    let mut t = Ttuple(1i32, Ttuple("str", Ttuple(2i32, Ttuple::new(false))));
    let first: Option<&i32> = t.get_some();
    assert_eq!(first, Some(&1));
    let flag: Option<&bool> = t.get_some();
    assert_eq!(flag, Some(&false));
    if let Some(n) = GetSome::<i32>::get_some_mut(&mut t) {
        *n = 10;
    }
    if let Some(s) = GetSome::<&str>::get_some_mut(&mut t) {
        *s = "changed";
    }
    let missing: Option<&mut u64> = t.get_some_mut();
    assert!(missing.is_none());
    assert_eq!(t, Ttuple(10i32, Ttuple("changed", Ttuple(2i32, Ttuple::new(false)))));
    let mut n = Nil();
    let nothing: Option<&mut i32> = n.get_some_mut();
    assert!(nothing.is_none());
}
