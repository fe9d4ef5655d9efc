use survey_cad_truck_gui::tin_edit::{boundary_indices, edit_targets, parse_index, SurfaceGroup};

#[test]
fn reads_indices_as_str_parse_does() {
    for s in ["0", "7", "+12", "0042", "18446744073709551615", "", "+", "-1", " 3", "3 ", "1a", "99999999999999999999"] {
        assert_eq!(parse_index(s), s.parse::<usize>().ok(), "text {s:?}");
    }
    assert_eq!(parse_index("+07"), Some(7));
    assert_eq!(parse_index("-0"), None);
}

#[test]
fn reads_boundary_lists() {
    assert_eq!(boundary_indices("0, 1,2 3"), vec![0, 1, 2, 3]);
    assert_eq!(boundary_indices("4,x,5,,6"), vec![4, 5, 6]);
    assert_eq!(boundary_indices(""), Vec::<usize>::new());
    assert_eq!(boundary_indices("1\t2\n3\u{3000}4"), vec![1, 2, 3, 4]);
    assert_eq!(boundary_indices("7;8"), Vec::<usize>::new());
}

#[test]
fn boundary_list_matches_split_and_parse() {
    for s in ["1,2,3", " 10  20 ", "a b 3", "+1,-2,03", "5\u{a0}6\u{2003}7"] {
        let expected: Vec<usize> = s
            .split(|c: char| c == ',' || c.is_whitespace())
            .filter_map(|p| p.parse().ok())
            .collect();
        assert_eq!(boundary_indices(s), expected, "text {s:?}");
    }
}

#[test]
fn edit_applies_to_the_first_group_holding_the_surface() {
    let groups = vec![
        SurfaceGroup { name: "Group 1".to_string(), surface_ids: vec![0, 2] },
        SurfaceGroup { name: "Group 2".to_string(), surface_ids: vec![2, 3, 4] },
    ];
    assert_eq!(edit_targets(&groups, 2), vec![0, 2]);
    assert_eq!(edit_targets(&groups, 4), vec![2, 3, 4]);
    assert_eq!(edit_targets(&groups, 9), vec![9]);
    assert_eq!(edit_targets(&Vec::new(), 1), vec![1]);
}
