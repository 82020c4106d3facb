use astel::type_list::{Cons, HList, Nil, ResourceName};

struct Users;
struct Posts;

impl ResourceName for Users {
    const NAME: &'static str = "Users";
}

impl ResourceName for Posts {
    const NAME: &'static str = "Posts";
}

#[test]
fn empty_list_has_no_names() {
    assert!(Nil.names().is_empty());
}

#[test]
fn names_come_in_push_order() {
    let l: Cons<Posts, Cons<Users, Nil>> = Nil.push::<Users>().push::<Posts>();
    assert_eq!(l.names(), vec!["Users", "Posts"]);
    let l2 = l.clone();
    assert_eq!(l2.names().len(), 2);
}
