use xlsx_import::border::{Border, BorderPosition};

#[test]
fn test_border() {
    let mut b = Border::new(BorderPosition::Top);
    b.set_style(String::from("thin"));
    b.set_color(String::from("#DF5K3FD"));
    let (_, val) = b.get_computed_style();
    assert_eq!(val, "0.5px solid #DF5K3FD");

    b = Border::new(BorderPosition::Top);
    b.set_style(String::from("thick"));
    b.set_color(String::from("#DF5K3FD"));
    let (_, val) = b.get_computed_style();
    assert_eq!(val, "2px solid #DF5K3FD");

    b = Border::new(BorderPosition::Top);
    b.set_style(String::from("medium"));
    let (_, val) = b.get_computed_style();
    assert_eq!(val, "1px solid #000000");

    b = Border::new(BorderPosition::Top);
    let (_, val) = b.get_computed_style();
    assert_eq!(val, "");
}

#[test]
fn a_keyword_that_names_no_style_changes_nothing() {
    let mut b = Border::new(BorderPosition::Left);
    b.set_style(String::from("wavy"));
    assert_eq!(b.get_computed_style(), (String::new(), String::new()));

    let mut b = Border::new(BorderPosition::Left);
    b.set_style(String::from("thin"));
    b.set_style(String::from("wavy"));
    b.set_style(String::from("Thick"));
    assert_eq!(
        b.get_computed_style(),
        (String::from("borderLeft"), String::from("0.5px solid #000000"))
    );
}

#[test]
fn every_style_and_side_renders() {
    let lines = [
        ("thin", "0.5px solid #ABCDEF"),
        ("medium", "1px solid #ABCDEF"),
        ("thick", "2px solid #ABCDEF"),
        ("dotted", "1px dotted #ABCDEF"),
        ("double", "1px double #ABCDEF"),
        ("hair", "1px dashed #ABCDEF"),
    ];
    for (keyword, value) in lines {
        let mut b = Border::new(BorderPosition::Right);
        b.set_color(String::from("#ABCDEF"));
        b.set_style(String::from(keyword));
        assert_eq!(b.get_computed_style(), (String::from("borderRight"), String::from(value)));
    }
    let sides = [
        (BorderPosition::Left, "borderLeft"),
        (BorderPosition::Right, "borderRight"),
        (BorderPosition::Top, "borderTop"),
        (BorderPosition::Bottom, "borderBottom"),
    ];
    for (side, name) in sides {
        let mut b = Border::new(side);
        assert_eq!(b.side(), side);
        b.set_style(String::from("medium"));
        assert_eq!(b.get_computed_style().0, name);
    }
}
