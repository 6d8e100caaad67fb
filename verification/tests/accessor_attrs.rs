use ledger_core::accessor::{
    field_attr_from_tokens, struct_attr_from_tokens, token_from_ident, AccessorError,
    AccessorVisibility, GetSetDerive, GetSetFieldAttr, GetSetGenMode, GetSetOptions,
    GetSetStructAttr, GetSetToken, RequestedAccessors,
};

fn no_options() -> GetSetOptions {
    GetSetOptions { visibility: None, with_prefix: false }
}

fn vis(v: AccessorVisibility) -> GetSetOptions {
    GetSetOptions { visibility: Some(v), with_prefix: false }
}

fn empty_map() -> RequestedAccessors {
    RequestedAccessors { get: None, get_copy: None, set: None, get_mut: None }
}

#[test]
fn field_empty() {
    let (attr, errors) = field_attr_from_tokens(&vec![]);
    assert_eq!(attr, GetSetFieldAttr::default());
    assert!(errors.is_empty());
}

#[test]
fn struct_empty() {
    let (attr, errors) = struct_attr_from_tokens(&vec![]);
    assert_eq!(attr, GetSetStructAttr::default());
    assert!(errors.is_empty());
}

#[test]
fn field_skip() {
    let (attr, errors) = field_attr_from_tokens(&vec![GetSetToken::Skip]);
    assert_eq!(attr, GetSetFieldAttr { skip: true, ..Default::default() });
    assert!(errors.is_empty());
}

#[test]
fn field_get() {
    let (attr, errors) =
        field_attr_from_tokens(&vec![GetSetToken::Gen(GetSetGenMode::Get, no_options())]);
    assert_eq!(
        attr,
        GetSetFieldAttr {
            gen: RequestedAccessors { get: Some(no_options()), ..empty_map() },
            ..Default::default()
        }
    );
    assert!(errors.is_empty());
}

#[test]
fn field_get_pub() {
    let (attr, _) = field_attr_from_tokens(&vec![GetSetToken::Gen(
        GetSetGenMode::Get,
        vis(AccessorVisibility::Public),
    )]);
    assert_eq!(
        attr,
        GetSetFieldAttr {
            gen: RequestedAccessors {
                get: Some(vis(AccessorVisibility::Public)),
                ..empty_map()
            },
            ..Default::default()
        }
    );
}

#[test]
fn field_get_pub_with_prefix() {
    let expected = GetSetFieldAttr {
        gen: RequestedAccessors {
            get: Some(GetSetOptions {
                visibility: Some(AccessorVisibility::Public),
                with_prefix: true,
            }),
            ..empty_map()
        },
        ..Default::default()
    };
    let (attr, _) = field_attr_from_tokens(&vec![GetSetToken::Gen(
        GetSetGenMode::Get,
        GetSetOptions { visibility: Some(AccessorVisibility::Public), with_prefix: true },
    )]);
    assert_eq!(attr, expected);
    let (attr, _) = field_attr_from_tokens(&vec![GetSetToken::Gen(
        GetSetGenMode::Get,
        GetSetOptions { with_prefix: true, visibility: Some(AccessorVisibility::Public) },
    )]);
    assert_eq!(attr, expected);
}

#[test]
fn struct_get() {
    let (attr, errors) =
        struct_attr_from_tokens(&vec![GetSetToken::Gen(GetSetGenMode::Get, no_options())]);
    assert_eq!(
        attr,
        GetSetStructAttr {
            gen: RequestedAccessors { get: Some(no_options()), ..empty_map() },
        }
    );
    assert!(errors.is_empty());
}

#[test]
fn struct_get_pub() {
    let (attr, _) = struct_attr_from_tokens(&vec![GetSetToken::Gen(
        GetSetGenMode::Get,
        vis(AccessorVisibility::Public),
    )]);
    assert_eq!(
        attr,
        GetSetStructAttr {
            gen: RequestedAccessors {
                get: Some(vis(AccessorVisibility::Public)),
                ..empty_map()
            },
        }
    );
}

#[test]
fn struct_get_pub_with_prefix() {
    let expected = GetSetStructAttr {
        gen: RequestedAccessors {
            get: Some(GetSetOptions {
                visibility: Some(AccessorVisibility::Public),
                with_prefix: true,
            }),
            ..empty_map()
        },
    };
    let (attr, _) = struct_attr_from_tokens(&vec![GetSetToken::Gen(
        GetSetGenMode::Get,
        GetSetOptions { visibility: Some(AccessorVisibility::Public), with_prefix: true },
    )]);
    assert_eq!(attr, expected);
    let (attr, _) = struct_attr_from_tokens(&vec![GetSetToken::Gen(
        GetSetGenMode::Get,
        GetSetOptions { with_prefix: true, visibility: Some(AccessorVisibility::Public) },
    )]);
    assert_eq!(attr, expected);
}

#[test]
fn field_get_copy() {
    let (attr, _) =
        field_attr_from_tokens(&vec![GetSetToken::Gen(GetSetGenMode::GetCopy, no_options())]);
    assert_eq!(
        attr,
        GetSetFieldAttr {
            gen: RequestedAccessors { get_copy: Some(no_options()), ..empty_map() },
            ..Default::default()
        }
    );
}

#[test]
fn field_set() {
    let (attr, _) =
        field_attr_from_tokens(&vec![GetSetToken::Gen(GetSetGenMode::Setter, no_options())]);
    assert_eq!(
        attr,
        GetSetFieldAttr {
            gen: RequestedAccessors { set: Some(no_options()), ..empty_map() },
            ..Default::default()
        }
    );
}

#[test]
fn field_get_mut() {
    let (attr, _) =
        field_attr_from_tokens(&vec![GetSetToken::Gen(GetSetGenMode::GetMut, no_options())]);
    assert_eq!(
        attr,
        GetSetFieldAttr {
            gen: RequestedAccessors { get_mut: Some(no_options()), ..empty_map() },
            ..Default::default()
        }
    );
}

#[test]
fn struct_get_copy() {
    let (attr, _) =
        struct_attr_from_tokens(&vec![GetSetToken::Gen(GetSetGenMode::GetCopy, no_options())]);
    assert_eq!(
        attr,
        GetSetStructAttr {
            gen: RequestedAccessors { get_copy: Some(no_options()), ..empty_map() },
        }
    );
}

#[test]
fn struct_set() {
    let (attr, _) =
        struct_attr_from_tokens(&vec![GetSetToken::Gen(GetSetGenMode::Setter, no_options())]);
    assert_eq!(
        attr,
        GetSetStructAttr {
            gen: RequestedAccessors { set: Some(no_options()), ..empty_map() },
        }
    );
}

#[test]
fn struct_get_mut() {
    let (attr, _) =
        struct_attr_from_tokens(&vec![GetSetToken::Gen(GetSetGenMode::GetMut, no_options())]);
    assert_eq!(
        attr,
        GetSetStructAttr {
            gen: RequestedAccessors { get_mut: Some(no_options()), ..empty_map() },
        }
    );
}

#[test]
fn err_unknown_token() {
    let r = token_from_ident(&"unknown_token".to_string(), None);
    assert_eq!(r, Err(AccessorError::UnknownToken));
    assert_eq!(
        r.unwrap_err().message(),
        "expected one of `get`, `get_copy`, `get_mut`, `set`, `skip`"
    );
}

#[test]
fn err_skip_struct() {
    let (_, errors) = struct_attr_from_tokens(&vec![GetSetToken::Skip]);
    assert_eq!(errors, vec![AccessorError::SkipOnStruct]);
    assert_eq!(errors[0].message(), "`skip` is not valid on a struct");
}

#[test]
fn err_duplicate_accessor() {
    let (attr, errors) = struct_attr_from_tokens(&vec![
        GetSetToken::Gen(GetSetGenMode::Get, vis(AccessorVisibility::Public)),
        GetSetToken::Gen(GetSetGenMode::Get, no_options()),
    ]);
    assert_eq!(errors, vec![AccessorError::Duplicate(GetSetGenMode::Get)]);
    assert_eq!(
        errors[0].message(),
        "duplicate `getset(get)` attribute",
        "The error message does not match the expected one"
    );
    // The first request stands.
    assert_eq!(attr.gen.get, Some(vis(AccessorVisibility::Public)));
}

#[test]
fn err_prefixed_setter() {
    let (_, errors) = field_attr_from_tokens(&vec![GetSetToken::Gen(
        GetSetGenMode::Setter,
        GetSetOptions { visibility: None, with_prefix: true },
    )]);
    assert_eq!(errors, vec![AccessorError::PrefixOnSetter]);
    assert_eq!(errors[0].message(), "`with_prefix` is not supported for `set`");
}

#[test]
fn err_skip_beside_requests() {
    let (attr, errors) = field_attr_from_tokens(&vec![
        GetSetToken::Skip,
        GetSetToken::Gen(GetSetGenMode::Get, no_options()),
    ]);
    assert!(attr.skip);
    assert_eq!(errors, vec![AccessorError::SkipWithAccessors]);
    assert_eq!(
        errors[0].message(),
        "`skip` is used, but attributes requesting a getter or setter are also present"
    );
}

fn field_of(tokens: Vec<GetSetToken>) -> GetSetFieldAttr {
    let (attr, errors) = field_attr_from_tokens(&tokens);
    assert!(errors.is_empty());
    attr
}

fn struct_of(tokens: Vec<GetSetToken>) -> GetSetStructAttr {
    let (attr, errors) = struct_attr_from_tokens(&tokens);
    assert!(errors.is_empty());
    attr
}

#[test]
fn getset_basic() {
    let field = field_of(vec![
        GetSetToken::Gen(GetSetGenMode::Get, no_options()),
        GetSetToken::Gen(GetSetGenMode::Setter, no_options()),
    ]);
    let result = field.get_field_accessors(
        &vec![GetSetDerive::Getters, GetSetDerive::Setters],
        &GetSetStructAttr::default(),
    );
    assert_eq!(
        result,
        RequestedAccessors { get: Some(no_options()), set: Some(no_options()), ..empty_map() }
    );
}

#[test]
fn getset_derive_disabled() {
    // No Setters helper: no setter is generated.
    let field = field_of(vec![
        GetSetToken::Gen(GetSetGenMode::Get, no_options()),
        GetSetToken::Gen(GetSetGenMode::Setter, no_options()),
    ]);
    let result =
        field.get_field_accessors(&vec![GetSetDerive::Getters], &GetSetStructAttr::default());
    assert_eq!(result, RequestedAccessors { get: Some(no_options()), ..empty_map() });
}

#[test]
fn getset_inherit() {
    let strct = struct_of(vec![GetSetToken::Gen(GetSetGenMode::Get, no_options())]);
    let field = field_of(vec![GetSetToken::Gen(GetSetGenMode::Setter, no_options())]);
    let result =
        field.get_field_accessors(&vec![GetSetDerive::Getters, GetSetDerive::Setters], &strct);
    assert_eq!(
        result,
        RequestedAccessors { get: Some(no_options()), set: Some(no_options()), ..empty_map() }
    );
}

#[test]
fn getset_overwrite_visibility() {
    let strct = struct_of(vec![
        GetSetToken::Gen(GetSetGenMode::Get, vis(AccessorVisibility::PublicCrate)),
        GetSetToken::Gen(GetSetGenMode::Setter, vis(AccessorVisibility::PublicCrate)),
    ]);
    let field = field_of(vec![GetSetToken::Gen(
        GetSetGenMode::Setter,
        vis(AccessorVisibility::Public),
    )]);
    let result =
        field.get_field_accessors(&vec![GetSetDerive::Getters, GetSetDerive::Setters], &strct);
    assert_eq!(
        result,
        RequestedAccessors {
            get: Some(vis(AccessorVisibility::PublicCrate)),
            set: Some(vis(AccessorVisibility::Public)),
            ..empty_map()
        }
    );
}

#[test]
fn inherit_with_prefix() {
    let strct = struct_of(vec![
        GetSetToken::Gen(
            GetSetGenMode::Get,
            GetSetOptions { visibility: None, with_prefix: true },
        ),
        GetSetToken::Gen(GetSetGenMode::GetCopy, vis(AccessorVisibility::Public)),
    ]);
    let field = field_of(vec![
        GetSetToken::Gen(GetSetGenMode::Get, vis(AccessorVisibility::Public)),
        GetSetToken::Gen(
            GetSetGenMode::GetCopy,
            GetSetOptions { visibility: Some(AccessorVisibility::PublicCrate), with_prefix: true },
        ),
    ]);
    let result = field.get_field_accessors(
        &vec![GetSetDerive::Getters, GetSetDerive::CopyGetters],
        &strct,
    );
    assert_eq!(
        result,
        RequestedAccessors {
            get: Some(GetSetOptions {
                visibility: Some(AccessorVisibility::Public),
                with_prefix: true,
            }),
            get_copy: Some(GetSetOptions {
                visibility: Some(AccessorVisibility::PublicCrate),
                with_prefix: true,
            }),
            ..empty_map()
        }
    );
}

#[test]
fn skipped_field_gets_no_accessors() {
    let strct = struct_of(vec![GetSetToken::Gen(GetSetGenMode::Get, no_options())]);
    let field = field_of(vec![GetSetToken::Skip]);
    let result = field.get_field_accessors(&vec![GetSetDerive::Getters], &strct);
    assert_eq!(result, empty_map());
}

#[test]
fn helper_names_and_modes() {
    assert_eq!(GetSetDerive::Getters.get_mode(), GetSetGenMode::Get);
    assert_eq!(GetSetDerive::Setters.get_mode(), GetSetGenMode::Setter);
    assert_eq!(GetSetDerive::MutGetters.get_mode(), GetSetGenMode::GetMut);
    assert_eq!(GetSetDerive::CopyGetters.get_mode(), GetSetGenMode::GetCopy);
    assert_eq!(
        GetSetDerive::try_from_path(&vec!["Getters".to_string()]),
        Some(GetSetDerive::Getters)
    );
    assert_eq!(
        GetSetDerive::try_from_path(&vec!["getset".to_string(), "Setters".to_string()]),
        Some(GetSetDerive::Setters)
    );
    assert_eq!(
        GetSetDerive::try_from_path(&vec!["other".to_string(), "Getters".to_string()]),
        None
    );
    assert_eq!(GetSetDerive::try_from_path(&vec!["Bogus".to_string()]), None);
    assert_eq!(GetSetGenMode::from_str(&"get_mut".to_string()), Some(GetSetGenMode::GetMut));
    assert_eq!(GetSetGenMode::from_str(&"nope".to_string()), None);
    assert_eq!(GetSetGenMode::GetCopy.name(), "get_copy");
}

#[test]
fn options_words_in_either_order() {
    let (opts, errors) =
        ledger_core::accessor::options_from_words(&vec!["pub".to_string(), "with_prefix".to_string()]);
    assert!(errors.is_empty());
    assert_eq!(
        opts,
        GetSetOptions { visibility: Some(AccessorVisibility::Public), with_prefix: true }
    );
    let (opts, errors) =
        ledger_core::accessor::options_from_words(&vec!["with_prefix".to_string(), "pub".to_string()]);
    assert!(errors.is_empty());
    assert_eq!(
        opts,
        GetSetOptions { visibility: Some(AccessorVisibility::Public), with_prefix: true }
    );
}

#[test]
fn err_unknown_option() {
    let (_, errors) =
        ledger_core::accessor::options_from_words(&vec!["aboba".to_string()]);
    assert_eq!(errors.len(), 1);
    assert_eq!(
        errors[0].message(),
        "Failed to parse getset options at `aboba`: expected visibility or `with_prefix`",
        "The error message does not match the expected one"
    );
}

#[test]
fn err_duplicate_visibility() {
    let (opts, errors) = ledger_core::accessor::options_from_words(&vec![
        "pub".to_string(),
        "pub(crate)".to_string(),
    ]);
    assert_eq!(opts.visibility, Some(AccessorVisibility::Public));
    assert_eq!(errors.len(), 1);
    assert_eq!(
        errors[0].message(),
        "Failed to parse getset options at pub(crate): duplicate visibility"
    );
}
