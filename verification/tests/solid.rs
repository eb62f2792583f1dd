use brep_kernel::objects::{Objects, Shell, Solid};
use brep_kernel::operations::{Insert, UpdateSolid};
use brep_kernel::storage::{Handle, ObjectId};

fn shells(objects: &mut Objects, n: usize) -> Vec<Handle<Shell>> {
    (0..n).map(|_| Shell { faces: vec![] }.insert(objects)).collect()
}

fn ids(solid: &Solid) -> Vec<ObjectId> {
    solid.shells.iter().map(|shell| shell.id()).collect()
}

#[test]
fn shells_are_added_behind_the_others() {
    let mut objects = Objects::new();
    let s = shells(&mut objects, 3);
    let solid = Solid { shells: vec![s[0]] };

    let grown = solid.add_shells(vec![s[1], s[2]]);
    assert_eq!(ids(&grown), vec![s[0].id(), s[1].id(), s[2].id()]);
    assert_eq!(ids(&solid), vec![s[0].id()]);
    assert_eq!(ids(&grown.add_shells(vec![])), ids(&grown));
}

#[test]
fn a_shell_is_updated_in_its_place() {
    let mut objects = Objects::new();
    let s = shells(&mut objects, 4);
    let solid = Solid { shells: vec![s[0], s[1], s[2]] };

    let updated = solid.update_shell(&s[1], |old| {
        assert_eq!(old.id(), s[1].id());
        s[3]
    });
    assert_eq!(ids(&updated), vec![s[0].id(), s[3].id(), s[2].id()]);

    let first = solid.update_shell(&s[0], |_| s[3]);
    assert_eq!(ids(&first), vec![s[3].id(), s[1].id(), s[2].id()]);
    let last = solid.update_shell(&s[2], |_| s[3]);
    assert_eq!(ids(&last), vec![s[0].id(), s[1].id(), s[3].id()]);
}

#[test]
fn a_shell_is_replaced_by_any_number_of_others() {
    let mut objects = Objects::new();
    let s = shells(&mut objects, 5);
    let solid = Solid { shells: vec![s[0], s[1], s[2]] };

    let more = solid.replace_shell(&s[1], |_| [s[3], s[4]]);
    assert_eq!(ids(&more), vec![s[0].id(), s[3].id(), s[4].id(), s[2].id()]);

    let less = solid.replace_shell(&s[1], |_| -> [Handle<Shell>; 0] { [] });
    assert_eq!(ids(&less), vec![s[0].id(), s[2].id()]);

    // only the first of two handles to one shell is replaced
    let twice = Solid { shells: vec![s[1], s[0], s[1]] };
    let once = twice.replace_shell(&s[1], |_| [s[4]]);
    assert_eq!(ids(&once), vec![s[4].id(), s[0].id(), s[1].id()]);
}
