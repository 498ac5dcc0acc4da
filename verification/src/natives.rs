//! The one way into the built-ins: which of them is called decides what happens.
use crate::array_live::ArrOp;
use crate::canvas::{cat, empty_list, CanvasMethod};
use crate::dates::DateField;
use crate::elements::CharDataOp;
use crate::functions::IntegrityTest;
use crate::host::{
    ask_value, chain, done, halted, list1, opt_view, run_value, text_value, Halt, Host, Interp, Op,
    PlatformFn, PrimBrand, Resume, Run, Stop,
};
use crate::json_revive::JsonSrc;
use crate::listeners::{Listeners, ListenersV};
use crate::maths::MathOp;
use crate::number_format::{
    integral, num_is_finite, num_is_integer, num_is_nan, num_is_safe_integer, safe_integer, this_of,
    this_or_undefined,
};
use crate::property::Integrity;
use crate::str_ops::StrOp;
use crate::tree::Place;
use crate::value::{arg, arg_at, views, ErrorKind, Val, Value};
use crate::web::QueryEdit;
use crate::web_state::{PairV, Storage, Timers, TimersV};
use vstd::prelude::*;

verus! {

/// The built-ins of objects, functions and proxies.
#[derive(Debug, Clone, Copy, PartialEq, Eq, Structural)]
pub enum ObjectFn {
    ProxyCtor,
    ProxyRevocable,
    ProxyRevoke,
    FnCall,
    FnApply,
    FnBind,
    FnHasInstance,
    FnToString,
    ObjectGetOwnPropertyDescriptor,
    ObjectDefineProperty,
    ObjectDefineProperties,
    ObjectCreate,
    ObjectSetPrototypeOf,
    ObjectGetPrototypeOf,
    ObjectGetOwnPropertySymbols,
    ObjectIsPrototypeOf,
    Restrict(Integrity),
    Test(IntegrityTest),
    HasOwnProperty,
    PropertyIsEnumerable,
    ObjToString,
    ObjectKeys,
    ObjectValues,
    ObjectEntries,
    ObjectGetOwnPropertyNames,
    ObjectFromEntries,
    ObjectAssign,
    ObjectGroupBy,
    ReflectGet,
    ReflectSet,
    ReflectHas,
    ReflectDeleteProperty,
    ReflectApply,
    ReflectConstruct,
    ReflectSetPrototypeOf,
    ReflectPreventExtensions,
    ReflectIsExtensible,
    ReflectGetPrototypeOf,
    ReflectOwnKeys,
    ReflectGetOwnPropertyDescriptor,
    ReflectDefineProperty,
    ReturnTrue,
    ReturnThis,
    SpeciesGet,
    Noop,
    Identity,
}

/// The built-ins of objects, functions and proxies. What a call of one of them does.
pub open spec fn object_native_run(h: Host, pos: nat, f: ObjectFn, recv: Option<Val>, args: Seq<Val>) -> Run<Val> {
    match f {
        ObjectFn::ProxyCtor => crate::brands::proxy_ctor_run(h, pos, recv, args),
        ObjectFn::ProxyRevocable => crate::functions::proxy_revocable_run(h, pos, recv, args),
        ObjectFn::ProxyRevoke => crate::functions::proxy_revoke_run(h, pos, recv, args),
        ObjectFn::FnCall => crate::functions::fn_call_run(h, pos, recv, args),
        ObjectFn::FnApply => crate::functions::fn_apply_run(h, pos, recv, args),
        ObjectFn::FnBind => crate::functions::fn_bind_run(h, pos, recv, args),
        ObjectFn::FnHasInstance => crate::functions::fn_has_instance_run(h, pos, recv, args),
        ObjectFn::FnToString => crate::functions::fn_to_string_run(h, pos, recv, args),
        ObjectFn::ObjectGetOwnPropertyDescriptor => crate::descriptors::object_get_own_property_descriptor_run(h, pos, recv, args),
        ObjectFn::ObjectDefineProperty => crate::descriptors::object_define_property_run(h, pos, recv, args),
        ObjectFn::ObjectDefineProperties => crate::descriptors::object_define_properties_run(h, pos, recv, args),
        ObjectFn::ObjectCreate => crate::descriptors::object_create_run(h, pos, recv, args),
        ObjectFn::ObjectSetPrototypeOf => crate::descriptors::object_set_prototype_of_run(h, pos, recv, args),
        ObjectFn::ObjectGetPrototypeOf => crate::descriptors::object_get_prototype_of_run(h, pos, recv, args),
        ObjectFn::ObjectGetOwnPropertySymbols => crate::descriptors::object_get_own_property_symbols_run(h, pos, recv, args),
        ObjectFn::ObjectIsPrototypeOf => crate::functions::is_prototype_of_run(h, pos, recv, args),
        ObjectFn::Restrict(x) => crate::functions::restrict_run(h, pos, x, args),
        ObjectFn::Test(x) => crate::functions::integrity_run(h, pos, x, args),
        ObjectFn::HasOwnProperty => crate::functions::has_own_property_run(h, pos, recv, args),
        ObjectFn::PropertyIsEnumerable => crate::functions::property_is_enumerable_run(h, pos, recv, args),
        ObjectFn::ObjToString => crate::functions::obj_to_string_run(h, pos, recv, args),
        ObjectFn::ObjectKeys => crate::reflect::object_keys_run(h, pos, recv, args),
        ObjectFn::ObjectValues => crate::reflect::object_values_run(h, pos, recv, args),
        ObjectFn::ObjectEntries => crate::reflect::object_entries_run(h, pos, recv, args),
        ObjectFn::ObjectGetOwnPropertyNames => crate::reflect::object_get_own_property_names_run(h, pos, recv, args),
        ObjectFn::ObjectFromEntries => crate::collect::object_from_entries_run(h, pos, recv, args),
        ObjectFn::ObjectAssign => crate::collect::object_assign_run(h, pos, recv, args),
        ObjectFn::ObjectGroupBy => crate::collect::object_group_by_run(h, pos, recv, args),
        ObjectFn::ReflectGet => crate::reflect::reflect_get_run(h, pos, recv, args),
        ObjectFn::ReflectSet => crate::reflect::reflect_set_run(h, pos, recv, args),
        ObjectFn::ReflectHas => crate::reflect::reflect_has_run(h, pos, recv, args),
        ObjectFn::ReflectDeleteProperty => crate::reflect::reflect_delete_property_run(h, pos, recv, args),
        ObjectFn::ReflectApply => crate::reflect::reflect_apply_run(h, pos, recv, args),
        ObjectFn::ReflectConstruct => crate::reflect::reflect_construct_run(h, pos, recv, args),
        ObjectFn::ReflectSetPrototypeOf => crate::reflect::reflect_set_prototype_of_run(h, pos, recv, args),
        ObjectFn::ReflectPreventExtensions => crate::reflect::reflect_prevent_extensions_run(h, pos, recv, args),
        ObjectFn::ReflectIsExtensible => crate::reflect::reflect_is_extensible_run(h, pos, recv, args),
        ObjectFn::ReflectGetPrototypeOf => crate::reflect::reflect_get_prototype_of_run(h, pos, recv, args),
        ObjectFn::ReflectOwnKeys => crate::reflect::reflect_own_keys_run(h, pos, recv, args),
        ObjectFn::ReflectGetOwnPropertyDescriptor => crate::reflect::reflect_get_own_property_descriptor_run(h, pos, recv, args),
        ObjectFn::ReflectDefineProperty => crate::reflect::reflect_define_property_run(h, pos, recv, args),
        ObjectFn::ReturnTrue => done(Val::Bool(true), pos),
        ObjectFn::ReturnThis => done(this_of(recv), pos),
        ObjectFn::SpeciesGet => done(this_of(recv), pos),
        ObjectFn::Noop => done(Val::Undefined, pos),
        ObjectFn::Identity => done(arg(args, 0), pos),
    }
}

/// The built-ins of errors, symbols, numbers, strings and dates.
#[derive(Debug, Clone, Copy, PartialEq, Eq, Structural)]
pub enum ValueFn {
    ErrorCtor(ErrorKind),
    ErrorToString,
    ErrorIsError,
    ErrorStackGet,
    ErrorStackSet,
    SymbolCtor,
    SymbolFor,
    SymbolKeyFor,
    SymbolDescGet,
    SymbolToPrimitive,
    PrimValueOf(PrimBrand),
    PrimToString(PrimBrand),
    ValueToStr,
    ValueOfSelf,
    BigIntCtor,
    BigIntToString,
    NumberCtor,
    BooleanCtor,
    StringCtor,
    NumIsInteger,
    NumIsSafeInteger,
    NumIsFinite,
    NumIsNaN,
    IsNaN,
    GlobalIsFinite,
    NumToFixed,
    NumToExponential,
    NumToPrecision,
    ParseInt,
    ParseFloat,
    Math(MathOp),
    StrFromCharCode,
    StrFromCodePoint,
    StrRaw,
    Str(StrOp),
    DateNow,
    DateParse,
    DateUTC,
    DateCtor,
    DateMethod(DateField),
}

/// The built-ins of errors, symbols, numbers, strings and dates. What a call of one of them does.
pub open spec fn value_native_run(h: Host, pos: nat, f: ValueFn, recv: Option<Val>, args: Seq<Val>) -> Run<Val> {
    match f {
        ValueFn::ErrorCtor(x) => crate::brands::error_ctor_run(h, pos, x, recv, args),
        ValueFn::ErrorToString => crate::functions::error_to_string_run(h, pos, recv, args),
        ValueFn::ErrorIsError => crate::functions::error_is_error_run(h, pos, recv, args),
        ValueFn::ErrorStackGet => crate::functions::error_stack_get_run(h, pos, recv, args),
        ValueFn::ErrorStackSet => crate::functions::error_stack_set_run(h, pos, recv, args),
        ValueFn::SymbolCtor => crate::symbols::symbol_run(h, pos, args),
        ValueFn::SymbolFor => crate::symbols::symbol_for_run(h, pos, args),
        ValueFn::SymbolKeyFor => crate::symbols::symbol_key_for_run(pos, args),
        ValueFn::SymbolDescGet => crate::brands::symbol_desc_get_run(h, pos, recv, args),
        ValueFn::SymbolToPrimitive => crate::brands::prim_value_of_run(h, pos, PrimBrand::Symbol, recv, args),
        ValueFn::PrimValueOf(x) => crate::brands::prim_value_of_run(h, pos, x, recv, args),
        ValueFn::PrimToString(x) => crate::number_format::prim_to_string_run(h, pos, x, recv, args),
        ValueFn::ValueToStr => crate::number_format::value_to_str_run(h, pos, recv, args),
        ValueFn::ValueOfSelf => crate::brands::value_of_self_run(h, pos, recv, args),
        ValueFn::BigIntCtor => crate::brands::big_int_ctor_run(h, pos, recv, args),
        ValueFn::BigIntToString => crate::globals::big_int_to_string_run(h, pos, recv, args),
        ValueFn::NumberCtor => crate::globals::number_ctor_run(h, pos, recv, args),
        ValueFn::BooleanCtor => crate::globals::boolean_ctor_run(h, pos, recv, args),
        ValueFn::StringCtor => crate::globals::string_ctor_run(h, pos, recv, args),
        ValueFn::NumIsInteger => done(Val::Bool(integral(arg(args, 0))), pos),
        ValueFn::NumIsSafeInteger => done(Val::Bool(safe_integer(arg(args, 0))), pos),
        ValueFn::NumIsFinite => done(Val::Bool(arg(args, 0) matches Val::Num(n) && n.finite()), pos),
        ValueFn::NumIsNaN => done(Val::Bool(arg(args, 0) matches Val::Num(n) && n.nan()), pos),
        ValueFn::IsNaN => crate::number_format::global_check_run(h, pos, args, false),
        ValueFn::GlobalIsFinite => crate::number_format::global_check_run(h, pos, args, true),
        ValueFn::NumToFixed => crate::number_format::to_fixed_run(h, pos, recv, args),
        ValueFn::NumToExponential => crate::number_format::to_exponential_run(h, pos, recv, args),
        ValueFn::NumToPrecision => crate::number_format::to_precision_run(h, pos, recv, args),
        ValueFn::ParseInt => crate::numeric_text::parse_int_run(h, pos, args),
        ValueFn::ParseFloat => crate::numeric_text::parse_float_run(h, pos, args),
        ValueFn::Math(x) => crate::maths::math_op_run(h, pos, x, args),
        ValueFn::StrFromCharCode => crate::code_units::from_char_codes(h, pos, args, 0, Seq::empty()),
        ValueFn::StrFromCodePoint => crate::code_units::from_code_points(h, pos, args, 0, Seq::empty()),
        ValueFn::StrRaw => crate::str_ops::str_raw_run(h, pos, recv, args),
        ValueFn::Str(x) => crate::str_ops::str_op_run(h, pos, x, recv, args),
        ValueFn::DateNow => crate::dates::date_now_run(h, pos, recv, args),
        ValueFn::DateParse => crate::dates::date_parse_run(h, pos, recv, args),
        ValueFn::DateUTC => crate::dates::date_utc_run(h, pos, recv, args),
        ValueFn::DateCtor => crate::dates::date_ctor_run(h, pos, recv, args),
        ValueFn::DateMethod(x) => crate::dates::date_method_run(h, pos, x, recv, args),
    }
}

/// The built-ins of arrays, collections, generators and promises.
#[derive(Debug, Clone, Copy, PartialEq, Eq, Structural)]
pub enum ListFn {
    ArrayCtor,
    ArrayPush,
    Arr(ArrOp),
    ArrayIsArray,
    ArrayOf,
    ArrayFrom,
    MapCtor,
    SetCtor,
    MapOp(u64),
    SetOp(u64),
    MapSize,
    SetSize,
    MapGroupBy,
    MakeIter,
    IterNext,
    GenStep(Resume),
    PromiseCtor,
    PromiseSettleResolve,
    PromiseSettleReject,
    PromiseResolve,
    PromiseReject,
    PromiseAll,
    PromiseAllSettled,
    PromiseRace,
    PromiseThen,
    PromiseCatch,
    PromiseFinally,
    PromiseWithResolvers,
    DynamicImport,
    QueueMicrotask,
}

/// The built-ins of arrays, collections, generators and promises. What a call of one of them does.
pub open spec fn list_native_run(h: Host, pos: nat, f: ListFn, recv: Option<Val>, args: Seq<Val>) -> Run<Val> {
    match f {
        ListFn::ArrayCtor => crate::globals::array_ctor_run(h, pos, recv, args),
        ListFn::ArrayPush => crate::arr_ops::array_push_run(h, pos, recv, args),
        ListFn::Arr(x) => crate::arr_ops::arr_op_run(h, pos, x, recv, args),
        ListFn::ArrayIsArray => crate::globals::array_is_array_run(h, pos, recv, args),
        ListFn::ArrayOf => crate::collect::array_of_run(h, pos, recv, args),
        ListFn::ArrayFrom => crate::collect::array_from_run(h, pos, recv, args),
        ListFn::MapCtor => crate::brands::map_ctor_run(h, pos, recv, args),
        ListFn::SetCtor => crate::brands::set_ctor_run(h, pos, recv, args),
        ListFn::MapOp(x) => crate::brands::map_proto_run(h, pos, x, recv, args),
        ListFn::SetOp(x) => crate::brands::set_proto_run(h, pos, x, recv, args),
        ListFn::MapSize => crate::brands::map_size_run(h, pos, recv, args),
        ListFn::SetSize => crate::brands::set_size_run(h, pos, recv, args),
        ListFn::MapGroupBy => crate::collect::map_group_by_run(h, pos, recv, args),
        ListFn::MakeIter => crate::brands::make_iter_run(h, pos, recv, args),
        ListFn::IterNext => crate::functions::iter_next_run(h, pos, recv, args),
        ListFn::GenStep(x) => crate::promises::generator_step_run(h, pos, x, recv, args),
        ListFn::PromiseCtor => crate::promises::promise_ctor_run(h, pos, recv, args),
        ListFn::PromiseSettleResolve => crate::promises::promise_settle_run(h, pos, true, recv, args),
        ListFn::PromiseSettleReject => crate::promises::promise_settle_run(h, pos, false, recv, args),
        ListFn::PromiseResolve => crate::promises::promise_resolve_run(h, pos, recv, args),
        ListFn::PromiseReject => crate::promises::promise_reject_run(h, pos, recv, args),
        ListFn::PromiseAll => crate::promises::promise_all_run(h, pos, false, recv, args),
        ListFn::PromiseAllSettled => crate::promises::promise_all_run(h, pos, true, recv, args),
        ListFn::PromiseRace => crate::promises::promise_race_run(h, pos, recv, args),
        ListFn::PromiseThen => crate::promises::promise_then_run(h, pos, recv, args),
        ListFn::PromiseCatch => crate::promises::promise_catch_run(h, pos, recv, args),
        ListFn::PromiseFinally => crate::promises::promise_finally_run(h, pos, recv, args),
        ListFn::PromiseWithResolvers => crate::promises::promise_with_resolvers_run(h, pos, recv, args),
        ListFn::DynamicImport => crate::promises::dynamic_import_run(h, pos, recv, args),
        ListFn::QueueMicrotask => crate::globals::queue_microtask_run(h, pos, recv, args),
    }
}

/// The built-ins of regular expressions, JSON, addresses and the console.
#[derive(Debug, Clone, Copy, PartialEq, Eq, Structural)]
pub enum TextFn {
    RegExpCtor,
    RegExpEscape,
    RegexFlags,
    RegexSource,
    RegexFlag(char),
    RegexMatch,
    RegexMatchAll,
    RegexReplace,
    RegexSearch,
    RegexSplit,
    RegexTest,
    RegexExec,
    JsonRawJson,
    JsonIsRawJson,
    JsonStringify,
    EncodeUri,
    EncodeUriComponent,
    DecodeUri,
    DecodeUriComponent,
    Escape,
    Unescape,
    ConsoleLog,
    Print,
    Alert,
    UrlToString,
    UrlSearchToString,
    UrlSearchGet,
    UrlSearchGetAll,
    UrlSearchHas,
    UrlSearchEdit(QueryEdit),
    HeadersGet,
    HeadersHas,
}

/// The built-ins of regular expressions, JSON, addresses and the console. What a call of one of them does.
pub open spec fn text_native_run(h: Host, pos: nat, f: TextFn, recv: Option<Val>, args: Seq<Val>) -> Run<Val> {
    match f {
        TextFn::RegExpCtor => crate::globals::regexp_ctor_run(h, pos, recv, args),
        TextFn::RegExpEscape => crate::regexp::regexp_escape_run(h, pos, recv, args),
        TextFn::RegexFlags => crate::regexp::regex_flags_run(h, pos, recv, args),
        TextFn::RegexSource => crate::regexp::regex_source_run(h, pos, recv, args),
        TextFn::RegexFlag(x) => crate::regexp::regex_flag_run(h, pos, x, recv),
        TextFn::RegexMatch => crate::regexp::regex_match_run(h, pos, recv, args),
        TextFn::RegexMatchAll => crate::regexp::regex_match_all_run(h, pos, recv, args),
        TextFn::RegexReplace => crate::regexp::regex_replace_run(h, pos, recv, args),
        TextFn::RegexSearch => crate::regexp::regex_search_run(h, pos, recv, args),
        TextFn::RegexSplit => crate::regexp::regex_split_run(h, pos, recv, args),
        TextFn::RegexTest => crate::regexp::regex_test_run(h, pos, recv, args),
        TextFn::RegexExec => crate::regexp::regex_exec_run(h, pos, recv, args),
        TextFn::JsonRawJson => crate::globals::json_raw_json_run(h, pos, recv, args),
        TextFn::JsonIsRawJson => crate::globals::json_is_raw_json_run(h, pos, recv, args),
        TextFn::JsonStringify => crate::globals::json_stringify_run(h, pos, recv, args),
        TextFn::EncodeUri => crate::globals::encode_uri_run(h, pos, recv, args),
        TextFn::EncodeUriComponent => crate::globals::encode_uri_component_run(h, pos, recv, args),
        TextFn::DecodeUri => crate::globals::decode_uri_run(h, pos, recv, args),
        TextFn::DecodeUriComponent => crate::globals::decode_uri_component_run(h, pos, recv, args),
        TextFn::Escape => crate::globals::escape_run(h, pos, recv, args),
        TextFn::Unescape => crate::globals::unescape_run(h, pos, recv, args),
        TextFn::ConsoleLog => crate::globals::console_log_run(h, pos, recv, args),
        TextFn::Print => crate::globals::console_log_run(h, pos, recv, args),
        TextFn::Alert => crate::globals::alert_run(h, pos, recv, args),
        TextFn::UrlToString => crate::web::url_to_string_run(h, pos, recv, args),
        TextFn::UrlSearchToString => crate::web::url_search_to_string_run(h, pos, recv, args),
        TextFn::UrlSearchGet => crate::web::url_search_get_run(h, pos, recv, args),
        TextFn::UrlSearchGetAll => crate::web::url_search_get_all_run(h, pos, recv, args),
        TextFn::UrlSearchHas => crate::web::url_search_has_run(h, pos, recv, args),
        TextFn::UrlSearchEdit(x) => crate::web::url_search_edit_run(h, pos, x, recv, args),
        TextFn::HeadersGet => crate::web::headers_get_run(h, pos, recv, args),
        TextFn::HeadersHas => crate::web::headers_has_run(h, pos, recv, args),
    }
}

/// The built-ins of nodes.
#[derive(Debug, Clone, Copy, PartialEq, Eq, Structural)]
pub enum DomFn {
    GetAttribute,
    HasAttribute,
    RemoveAttribute,
    SetAttribute,
    GetAttributeNames,
    HasAttributes,
    ToggleAttribute,
    GetAttributeNS,
    HasAttributeNS,
    RemoveAttributeNS,
    SetAttributeNS,
    GetAttributeNode,
    SetAttributeNode,
    RemoveAttributeNode,
    CharData(CharDataOp),
    SplitText,
    LookupNamespaceURI,
    IsDefaultNamespace,
    LookupPrefix,
    Brand,
    ListItem,
    InsertBefore,
    AppendChild,
    Put(Place),
    NodeReplaceWith,
    InsertAdjacentHTML,
    InsertAdjacentElement,
    ReplaceChildren,
    RemoveElement,
    RemoveChild,
    CloneNode,
    Matches,
    Closest,
    DomContains,
    DomGetRootNode,
    DocBody,
    DocHead,
    DocElement,
    ActiveElement,
    CurrentScript,
    CreateElement,
    CreateElementNS,
    CreateTextNode,
    CreateComment,
    CreateDocumentFragment,
    CreateHTMLDocument,
    DomParserCtor,
    DomParserParse,
    DocWrite,
    CompareDocPosition,
    GetElementsByClass,
    GetElementsByTag,
    QuerySelector,
    QuerySelectorAll,
    AttachShadow,
    TakeMutations,
    ClassAdd,
    ClassRemove,
    ClassToggle,
    ClassReplace,
    ClassSupports,
    ClassItem,
    ClassValue,
    ClassContains,
}

/// The built-ins of nodes. What a call of one of them does.
pub open spec fn dom_native_run(h: Host, pos: nat, f: DomFn, recv: Option<Val>, args: Seq<Val>) -> Run<Val> {
    match f {
        DomFn::GetAttribute => crate::elements::get_attribute_run(h, pos, recv, args),
        DomFn::HasAttribute => crate::elements::has_attribute_run(h, pos, recv, args),
        DomFn::RemoveAttribute => crate::elements::remove_attribute_run(h, pos, recv, args),
        DomFn::SetAttribute => crate::elements::set_attribute_run(h, pos, recv, args),
        DomFn::GetAttributeNames => crate::elements::get_attribute_names_run(h, pos, recv, args),
        DomFn::HasAttributes => crate::elements::has_attributes_run(h, pos, recv, args),
        DomFn::ToggleAttribute => crate::elements::toggle_attribute_run(h, pos, recv, args),
        DomFn::GetAttributeNS => crate::elements::get_attribute_ns_run(h, pos, recv, args),
        DomFn::HasAttributeNS => crate::elements::has_attribute_ns_run(h, pos, recv, args),
        DomFn::RemoveAttributeNS => crate::elements::remove_attribute_ns_run(h, pos, recv, args),
        DomFn::SetAttributeNS => crate::elements::set_attribute_ns_run(h, pos, recv, args),
        DomFn::GetAttributeNode => crate::elements::get_attribute_node_run(h, pos, recv, args),
        DomFn::SetAttributeNode => crate::elements::set_attribute_node_run(h, pos, recv, args),
        DomFn::RemoveAttributeNode => crate::elements::remove_attribute_node_run(h, pos, recv, args),
        DomFn::CharData(x) => crate::elements::char_data_run(h, pos, x, recv, args),
        DomFn::SplitText => crate::elements::split_text_run(h, pos, recv, args),
        DomFn::LookupNamespaceURI => crate::elements::lookup_namespace_uri_run(h, pos, recv, args),
        DomFn::IsDefaultNamespace => crate::elements::is_default_namespace_run(h, pos, recv, args),
        DomFn::LookupPrefix => crate::elements::lookup_prefix_run(h, pos, recv, args),
        DomFn::Brand => crate::elements::brand_run(h, pos, recv, args),
        DomFn::ListItem => crate::elements::list_item_run(h, pos, recv, args),
        DomFn::InsertBefore => crate::tree::insert_before_run(h, pos, recv, args),
        DomFn::AppendChild => crate::tree::append_child_run(h, pos, recv, args),
        DomFn::Put(x) => crate::tree::node_put_run(h, pos, x, recv, args),
        DomFn::NodeReplaceWith => crate::tree::node_replace_with_run(h, pos, recv, args),
        DomFn::InsertAdjacentHTML => crate::tree::insert_adjacent_run(h, pos, true, recv, args),
        DomFn::InsertAdjacentElement => crate::tree::insert_adjacent_run(h, pos, false, recv, args),
        DomFn::ReplaceChildren => crate::tree::replace_children_run(h, pos, recv, args),
        DomFn::RemoveElement => crate::tree::remove_element_run(h, pos, recv, args),
        DomFn::RemoveChild => crate::tree::remove_child_run(h, pos, recv, args),
        DomFn::CloneNode => crate::tree::clone_node_run(h, pos, recv, args),
        DomFn::Matches => crate::tree::matches_run(h, pos, recv, args),
        DomFn::Closest => crate::tree::closest_run(h, pos, recv, args),
        DomFn::DomContains => crate::tree::dom_contains_run(h, pos, recv, args),
        DomFn::DomGetRootNode => crate::tree::dom_get_root_node_run(h, pos, recv, args),
        DomFn::DocBody => crate::tree::doc_query_run(h, pos, "body"@, recv, args),
        DomFn::DocHead => crate::tree::doc_query_run(h, pos, "head"@, recv, args),
        DomFn::DocElement => crate::tree::doc_query_run(h, pos, "html"@, recv, args),
        DomFn::ActiveElement => crate::tree::active_element_run(h, pos, recv, args),
        DomFn::CurrentScript => crate::tree::current_script_run(h, pos, recv, args),
        DomFn::CreateElement => crate::tree::create_element_run(h, pos, recv, args),
        DomFn::CreateElementNS => crate::tree::create_element_ns_run(h, pos, recv, args),
        DomFn::CreateTextNode => crate::tree::create_text_node_run(h, pos, recv, args),
        DomFn::CreateComment => crate::tree::create_comment_run(h, pos, recv, args),
        DomFn::CreateDocumentFragment => crate::tree::create_document_fragment_run(h, pos, recv, args),
        DomFn::CreateHTMLDocument => crate::tree::create_html_document_run(h, pos, recv, args),
        DomFn::DomParserCtor => crate::tree::dom_parser_ctor_run(h, pos, recv, args),
        DomFn::DomParserParse => crate::tree::dom_parser_parse_run(h, pos, recv, args),
        DomFn::DocWrite => crate::tree::doc_write_run(h, pos, recv, args),
        DomFn::CompareDocPosition => crate::tree::compare_doc_position_run(h, pos, recv, args),
        DomFn::GetElementsByClass => crate::tree::get_elements_run(h, pos, true, recv, args),
        DomFn::GetElementsByTag => crate::tree::get_elements_run(h, pos, false, recv, args),
        DomFn::QuerySelector => crate::tree::query_selector_run(h, pos, false, recv, args),
        DomFn::QuerySelectorAll => crate::tree::query_selector_run(h, pos, true, recv, args),
        DomFn::AttachShadow => crate::tree::attach_shadow_run(h, pos, recv, args),
        DomFn::TakeMutations => crate::tree::take_mutations_run(h, pos, recv, args),
        DomFn::ClassAdd => crate::class_list::class_edit_run(h, pos, true, recv, args),
        DomFn::ClassRemove => crate::class_list::class_edit_run(h, pos, false, recv, args),
        DomFn::ClassToggle => crate::class_list::class_toggle_run(h, pos, recv, args),
        DomFn::ClassReplace => crate::class_list::class_replace_run(h, pos, recv, args),
        DomFn::ClassSupports => crate::class_list::class_supports_run(h, pos, recv, args),
        DomFn::ClassItem => crate::class_list::class_item_run(h, pos, recv, args),
        DomFn::ClassValue => crate::class_list::class_value_run(h, pos, recv, args),
        DomFn::ClassContains => crate::class_list::class_contains_run(h, pos, recv, args),
    }
}

/// The built-ins of events, styles, requests and canvases.
#[derive(Debug, Clone, Copy, PartialEq, Eq, Structural)]
pub enum PageFn {
    DispatchEvent,
    EventPreventDefault,
    EventStopProp,
    ElementClick,
    Focus,
    Blur,
    ElementAnimate,
    GetAnimations,
    CssSupports,
    ScrollTo,
    ScrollBy,
    ScrollIntoView,
    GetBoundingClientRect,
    LocationHref,
    LocationAssign,
    LocationReload,
    HistoryPushState,
    HistoryReplaceState,
    MatchMedia,
    CookieGet,
    CookieSet,
    ComputedGetProperty,
    BindElementClass,
    StyleSheets,
    SheetInsertRule,
    SheetDeleteRule,
    RuleStyleGet,
    RuleStyleItem,
    RuleStyleSet,
    RuleStyleRemove,
    StyleSetProperty,
    StyleGetProperty,
    StyleRemoveProperty,
    GetNamedItem,
    WsSend,
    WsClose,
    XhrOpen,
    XhrSetHeader,
    XhrGetHeader,
    XhrSend,
    Fetch,
    ResponseText,
    ResponseJson,
    ResponseArrayBuffer,
    ZeroBytes,
    CanvasGetContext,
    Canvas(CanvasMethod),
    WindowSelf,
    WasmValidate,
    WasmCompile,
    WasmMemPages,
    WasmRegisterMemory,
    WasmGrow,
    WasmInstantiate,
    WasmTableGet(u64),
}

/// The built-ins of events, styles, requests and canvases. What a call of one of them does.
pub open spec fn page_native_run(h: Host, pos: nat, f: PageFn, recv: Option<Val>, args: Seq<Val>) -> Run<Val> {
    match f {
        PageFn::DispatchEvent => crate::listeners::dispatch_event_run(h, pos, recv, args),
        PageFn::EventPreventDefault => crate::listeners::event_prevent_default_run(h, pos, recv, args),
        PageFn::EventStopProp => crate::listeners::event_stop_prop_run(h, pos, recv, args),
        PageFn::ElementClick => crate::listeners::element_click_run(h, pos, recv, args),
        PageFn::Focus => crate::listeners::focus_run(h, pos, recv, args),
        PageFn::Blur => crate::listeners::blur_run(h, pos, recv, args),
        PageFn::ElementAnimate => crate::page::element_animate_run(h, pos, recv, args),
        PageFn::GetAnimations => crate::page::get_animations_run(h, pos, recv, args),
        PageFn::CssSupports => crate::page::css_supports_run(h, pos, recv, args),
        PageFn::ScrollTo => crate::page::scroll_run(h, pos, false, recv, args),
        PageFn::ScrollBy => crate::page::scroll_run(h, pos, true, recv, args),
        PageFn::ScrollIntoView => crate::page::scroll_into_view_run(h, pos, recv, args),
        PageFn::GetBoundingClientRect => crate::page::get_bounding_client_rect_run(h, pos, recv, args),
        PageFn::LocationHref => crate::page::location_href_run(h, pos, recv, args),
        PageFn::LocationAssign => crate::page::location_assign_run(h, pos, recv, args),
        PageFn::LocationReload => crate::page::location_reload_run(h, pos, recv, args),
        PageFn::HistoryPushState => crate::page::history_state_run(h, pos, true, recv, args),
        PageFn::HistoryReplaceState => crate::page::history_state_run(h, pos, false, recv, args),
        PageFn::MatchMedia => crate::page::match_media_run(h, pos, recv, args),
        PageFn::CookieGet => crate::page::cookie_get_run(h, pos, recv, args),
        PageFn::CookieSet => crate::page::cookie_set_run(h, pos, recv, args),
        PageFn::ComputedGetProperty => crate::page::computed_get_property_run(h, pos, recv, args),
        PageFn::BindElementClass => crate::page::bind_element_class_run(h, pos, recv, args),
        PageFn::StyleSheets => crate::page::style_sheets_run(h, pos, recv, args),
        PageFn::SheetInsertRule => crate::page::sheet_insert_rule_run(h, pos, recv, args),
        PageFn::SheetDeleteRule => crate::page::sheet_delete_rule_run(h, pos, recv, args),
        PageFn::RuleStyleGet => crate::page::rule_style_get_run(h, pos, recv, args),
        PageFn::RuleStyleItem => crate::page::rule_style_item_run(h, pos, recv, args),
        PageFn::RuleStyleSet => crate::page::rule_style_set_run(h, pos, recv, args),
        PageFn::RuleStyleRemove => crate::page::rule_style_remove_run(h, pos, recv, args),
        PageFn::StyleSetProperty => crate::page::style_set_property_run(h, pos, recv, args),
        PageFn::StyleGetProperty => crate::page::style_get_property_run(h, pos, recv, args),
        PageFn::StyleRemoveProperty => crate::page::style_remove_property_run(h, pos, recv, args),
        PageFn::GetNamedItem => crate::page::get_named_item_run(h, pos, recv, args),
        PageFn::WsSend => crate::page::ws_send_run(h, pos, recv, args),
        PageFn::WsClose => crate::page::ws_close_run(h, pos, recv, args),
        PageFn::XhrOpen => crate::web::xhr_open_run(h, pos, recv, args),
        PageFn::XhrSetHeader => crate::web::xhr_set_header_run(h, pos, recv, args),
        PageFn::XhrGetHeader => crate::web::xhr_get_header_run(h, pos, recv, args),
        PageFn::XhrSend => crate::web::xhr_send_run(h, pos, recv, args),
        PageFn::Fetch => crate::web::fetch_run(h, pos, recv, args),
        PageFn::ResponseText => crate::promises::response_text_run(h, pos, recv, args),
        PageFn::ResponseJson => crate::promises::response_json_run(h, pos, recv, args),
        PageFn::ResponseArrayBuffer => crate::promises::response_array_buffer_run(h, pos, recv, args),
        PageFn::ZeroBytes => crate::promises::zero_bytes_run(h, pos, recv, args),
        PageFn::CanvasGetContext => crate::page::canvas_get_context_run(h, pos, recv, args),
        PageFn::Canvas(x) => crate::canvas::canvas_method_run(h, pos, x, recv, args),
        PageFn::WindowSelf => ask_value(h, pos, Op::GlobalValue, seq![Val::Str("window"@)]),
        PageFn::WasmValidate => crate::wasm::wasm_validate_run(h, pos, recv, args),
        PageFn::WasmCompile => crate::wasm::wasm_compile_run(h, pos, recv, args),
        PageFn::WasmMemPages => crate::wasm::wasm_mem_pages_run(h, pos, recv, args),
        PageFn::WasmRegisterMemory => crate::wasm::wasm_register_memory_run(h, pos, recv, args),
        PageFn::WasmGrow => crate::wasm::wasm_grow_run(h, pos, recv, args),
        PageFn::WasmInstantiate => crate::wasm::wasm_instantiate_run(h, pos, recv, args),
        PageFn::WasmTableGet(x) => crate::wasm::wasm_table_get_run(h, pos, x, recv, args),
    }
}

/// The built-ins of what a page keeps: storage, timers and listeners.
#[derive(Debug, Clone, Copy, PartialEq, Eq, Structural)]
pub enum StateFn {
    LsGetItem,
    LsLength,
    LsKey,
    LsSetItem,
    LsRemoveItem,
    LsClear,
    SetTimeout,
    SetInterval,
    ClearTimer,
    AddEventListener,
    RemoveEventListener,
    AddGlobalListener,
    RemoveGlobalListener,
    DispatchGlobalEvent,
}

/// A built-in function.
#[derive(Debug, PartialEq, Eq)]
pub enum Builtin {
    Object(ObjectFn),
    Value(ValueFn),
    List(ListFn),
    Text(TextFn),
    Dom(DomFn),
    Page(PageFn),
    State(StateFn),
    JsonParse,
    /// The constructor of events of an interface.
    EventCtor(String),
    /// A function of an instance of WebAssembly.
    WasmCall(u64, u64),
    WasmGlobalGet(u64, u64),
    WasmGlobalSet(u64, u64),
    Platform(PlatformFn),
}

/// What a page keeps.
pub struct Page {
    pub storage: Storage,
    pub timers: Timers,
    pub listeners: Listeners,
}

/// The mathematical counterpart of `Page`.
#[verifier::ext_equal]
pub struct PageV {
    pub storage: Seq<PairV>,
    pub timers: TimersV,
    pub listeners: ListenersV,
}

impl View for Page {
    type V = PageV;

    open spec fn view(&self) -> PageV {
        PageV { storage: self.storage@, timers: self.timers@, listeners: self.listeners@ }
    }
}

impl Page {
    pub open spec fn wf(self) -> bool {
        self.timers.wf()
    }

    /// Another page that keeps the same.
    pub fn copy(&self) -> (r: Page)
        ensures
            r@ == self@,
            self.wf() ==> r.wf(),
    {
        Page {
            storage: self.storage.copy(),
            timers: self.timers.copy(),
            listeners: self.listeners.copy(),
        }
    }
}

pub open spec fn with_storage(page: PageV, r: Run<Seq<PairV>>) -> Run<(Val, PageV)> {
    chain(
        r,
        |s: Seq<PairV>, p: nat|
            done(
                (
                    Val::Undefined,
                    PageV { storage: s, timers: page.timers, listeners: page.listeners },
                ),
                p,
            ),
    )
}

pub open spec fn with_timers(page: PageV, r: Run<(Val, TimersV)>) -> Run<(Val, PageV)> {
    chain(
        r,
        |t: (Val, TimersV), p: nat|
            done(
                (t.0, PageV { storage: page.storage, timers: t.1, listeners: page.listeners }),
                p,
            ),
    )
}

pub open spec fn with_listeners(page: PageV, r: Run<ListenersV>) -> Run<(Val, PageV)> {
    chain(
        r,
        |l: ListenersV, p: nat|
            done(
                (
                    Val::Undefined,
                    PageV { storage: page.storage, timers: page.timers, listeners: l },
                ),
                p,
            ),
    )
}

pub open spec fn keeping(page: PageV, r: Run<Val>) -> Run<(Val, PageV)> {
    chain(r, |v: Val, p: nat| done((v, page), p))
}

/// What a call of a built-in of what a page keeps does: its result, and the page after it.
pub open spec fn state_native_run(
    h: Host,
    pos: nat,
    f: StateFn,
    recv: Option<Val>,
    args: Seq<Val>,
    page: PageV,
) -> Run<(Val, PageV)> {
    match f {
        StateFn::LsGetItem => keeping(
            page,
            crate::web::ls_get_item_run(h, pos, page.storage, args),
        ),
        StateFn::LsLength => keeping(
            page,
            done(Val::Num(crate::array_live::count_num(page.storage.len())), pos),
        ),
        StateFn::LsKey => keeping(page, crate::web::ls_key_run(h, pos, page.storage, args)),
        StateFn::LsSetItem => with_storage(
            page,
            crate::web::ls_set_item_run(h, pos, page.storage, args),
        ),
        StateFn::LsRemoveItem => with_storage(
            page,
            crate::web::ls_remove_item_run(h, pos, page.storage, args),
        ),
        StateFn::LsClear => with_storage(page, done(Seq::empty(), pos)),
        StateFn::SetTimeout => with_timers(
            page,
            crate::web::set_timer_run(h, pos, page.timers, false, args),
        ),
        StateFn::SetInterval => with_timers(
            page,
            crate::web::set_timer_run(h, pos, page.timers, true, args),
        ),
        StateFn::ClearTimer => with_timers(
            page,
            crate::web::clear_timer_run(h, pos, page.timers, args),
        ),
        StateFn::AddEventListener => with_listeners(
            page,
            crate::listeners::add_event_listener_run(h, pos, page.listeners, recv, args),
        ),
        StateFn::RemoveEventListener => with_listeners(
            page,
            crate::listeners::remove_event_listener_run(h, pos, page.listeners, recv, args),
        ),
        StateFn::AddGlobalListener => with_listeners(
            page,
            crate::listeners::add_global_listener_run(h, pos, page.listeners, args),
        ),
        StateFn::RemoveGlobalListener => with_listeners(
            page,
            crate::listeners::remove_global_listener_run(h, pos, page.listeners, args),
        ),
        StateFn::DispatchGlobalEvent => keeping(
            page,
            crate::listeners::dispatch_global_event_run(h, pos, page.listeners, args),
        ),
    }
}

/// What a call of a built-in does: its result, and the page after it. `source` is how the values of
/// the text that `JSON.parse` is given are written.
pub open spec fn call_native_inner_run(
    h: Host,
    pos: nat,
    n: Builtin,
    recv: Option<Val>,
    args: Seq<Val>,
    page: PageV,
    source: Option<&JsonSrc>,
) -> Run<(Val, PageV)> {
    match n {
        Builtin::Object(f) => keeping(page, object_native_run(h, pos, f, recv, args)),
        Builtin::Value(f) => keeping(page, value_native_run(h, pos, f, recv, args)),
        Builtin::List(f) => keeping(page, list_native_run(h, pos, f, recv, args)),
        Builtin::Text(f) => keeping(page, text_native_run(h, pos, f, recv, args)),
        Builtin::Dom(f) => keeping(page, dom_native_run(h, pos, f, recv, args)),
        Builtin::Page(f) => keeping(page, page_native_run(h, pos, f, recv, args)),
        Builtin::State(f) => state_native_run(h, pos, f, recv, args, page),
        Builtin::JsonParse => keeping(
            page,
            crate::globals::json_parse_run(h, pos, args, source),
        ),
        Builtin::EventCtor(interface) => keeping(
            page,
            crate::listeners::event_ctor_run(h, pos, interface@, recv, args),
        ),
        Builtin::WasmCall(i, f) => keeping(
            page,
            crate::wasm::wasm_call_run(h, pos, i, f, recv, args),
        ),
        Builtin::WasmGlobalGet(i, g) => keeping(
            page,
            crate::wasm::wasm_global_get_run(h, pos, i, g, recv, args),
        ),
        Builtin::WasmGlobalSet(i, g) => keeping(
            page,
            crate::wasm::wasm_global_set_run(h, pos, i, g, recv, args),
        ),
        Builtin::Platform(f) => keeping(
            page,
            ask_value(h, pos, Op::Platform(f), seq![this_of(recv)] + args),
        ),
    }
}

/// What a call of a built-in does, and after it the telling of those who observe the document,
/// whether the call returned or threw.
pub open spec fn call_native_run(
    h: Host,
    pos: nat,
    n: Builtin,
    recv: Option<Val>,
    args: Seq<Val>,
    page: PageV,
    source: Option<&JsonSrc>,
) -> Run<(Val, PageV)> {
    let r = call_native_inner_run(h, pos, n, recv, args, page, source);
    if r.out matches Err(Halt::Ask(_)) {
        r
    } else {
        let d = ask_value(h, r.pos, Op::DeliverMutations, Seq::empty());
        match d.out {
            Err(Halt::Ask(q)) => halted(Halt::Ask(q), d.pos),
            _ => Run { out: r.out, pos: d.pos },
        }
    }
}

/// A call did what `run` says: its result, and the page after it. Where it stopped or threw, the
/// page is as it was.
pub open spec fn native_result(
    r: Result<Value, Stop>,
    it: Interp,
    before: PageV,
    after: PageV,
    run: Run<(Val, PageV)>,
) -> bool {
    &&& run.pos == it.pos
    &&& match r {
        Ok(v) => run.out == Ok::<(Val, PageV), Halt>((v@, after)),
        Err(e) => after == before && run.out == Err::<(Val, PageV), Halt>(e@),
    }
}

impl Interp {
    /// The built-ins of objects, functions and proxies.
    #[verifier::rlimit(40)]
    pub fn object_native(&mut self, f: &ObjectFn, recv: &Option<Value>, args: &Vec<Value>) -> (r: Result<Value, Stop>)
        requires
            old(self).wf(),
        ensures
            final(self).follows(*old(self)),
            run_value(r, *final(self)) == object_native_run(
                old(self).host(),
                old(self).pos as nat,
                *f,
                opt_view(*recv),
                views(args@),
            ),
    {
        match f {
            ObjectFn::ProxyCtor => self.proxy_ctor(recv, args),
            ObjectFn::ProxyRevocable => self.proxy_revocable(recv, args),
            ObjectFn::ProxyRevoke => self.proxy_revoke(recv, args),
            ObjectFn::FnCall => self.fn_call(recv, args),
            ObjectFn::FnApply => self.fn_apply(recv, args),
            ObjectFn::FnBind => self.fn_bind(recv, args),
            ObjectFn::FnHasInstance => self.fn_has_instance(recv, args),
            ObjectFn::FnToString => self.fn_to_string(recv, args),
            ObjectFn::ObjectGetOwnPropertyDescriptor => self.object_get_own_property_descriptor(recv, args),
            ObjectFn::ObjectDefineProperty => self.object_define_property(recv, args),
            ObjectFn::ObjectDefineProperties => self.object_define_properties(recv, args),
            ObjectFn::ObjectCreate => self.object_create(recv, args),
            ObjectFn::ObjectSetPrototypeOf => self.object_set_prototype_of(recv, args),
            ObjectFn::ObjectGetPrototypeOf => self.object_get_prototype_of(recv, args),
            ObjectFn::ObjectGetOwnPropertySymbols => self.object_get_own_property_symbols(recv, args),
            ObjectFn::ObjectIsPrototypeOf => self.is_prototype_of(recv, args),
            ObjectFn::Restrict(x) => self.restrict(*x, args),
            ObjectFn::Test(x) => self.integrity(*x, args),
            ObjectFn::HasOwnProperty => self.has_own_property(recv, args),
            ObjectFn::PropertyIsEnumerable => self.property_is_enumerable(recv, args),
            ObjectFn::ObjToString => self.obj_to_string(recv, args),
            ObjectFn::ObjectKeys => self.object_keys(recv, args),
            ObjectFn::ObjectValues => self.object_values(recv, args),
            ObjectFn::ObjectEntries => self.object_entries(recv, args),
            ObjectFn::ObjectGetOwnPropertyNames => self.object_get_own_property_names(recv, args),
            ObjectFn::ObjectFromEntries => self.object_from_entries(recv, args),
            ObjectFn::ObjectAssign => self.object_assign(recv, args),
            ObjectFn::ObjectGroupBy => self.object_group_by(recv, args),
            ObjectFn::ReflectGet => self.reflect_get(recv, args),
            ObjectFn::ReflectSet => self.reflect_set(recv, args),
            ObjectFn::ReflectHas => self.reflect_has(recv, args),
            ObjectFn::ReflectDeleteProperty => self.reflect_delete_property(recv, args),
            ObjectFn::ReflectApply => self.reflect_apply(recv, args),
            ObjectFn::ReflectConstruct => self.reflect_construct(recv, args),
            ObjectFn::ReflectSetPrototypeOf => self.reflect_set_prototype_of(recv, args),
            ObjectFn::ReflectPreventExtensions => self.reflect_prevent_extensions(recv, args),
            ObjectFn::ReflectIsExtensible => self.reflect_is_extensible(recv, args),
            ObjectFn::ReflectGetPrototypeOf => self.reflect_get_prototype_of(recv, args),
            ObjectFn::ReflectOwnKeys => self.reflect_own_keys(recv, args),
            ObjectFn::ReflectGetOwnPropertyDescriptor => self.reflect_get_own_property_descriptor(recv, args),
            ObjectFn::ReflectDefineProperty => self.reflect_define_property(recv, args),
            ObjectFn::ReturnTrue => Ok(Value::Bool(true)),
            ObjectFn::ReturnThis => Ok(this_or_undefined(recv)),
            ObjectFn::SpeciesGet => Ok(this_or_undefined(recv)),
            ObjectFn::Noop => Ok(Value::Undefined),
            ObjectFn::Identity => Ok(arg_at(args, 0)),
        }
    }

    /// The built-ins of errors, symbols, numbers, strings and dates.
    #[verifier::rlimit(40)]
    pub fn value_native(&mut self, f: &ValueFn, recv: &Option<Value>, args: &Vec<Value>) -> (r: Result<Value, Stop>)
        requires
            old(self).wf(),
        ensures
            final(self).follows(*old(self)),
            run_value(r, *final(self)) == value_native_run(
                old(self).host(),
                old(self).pos as nat,
                *f,
                opt_view(*recv),
                views(args@),
            ),
    {
        match f {
            ValueFn::ErrorCtor(x) => self.error_ctor(*x, recv, args),
            ValueFn::ErrorToString => self.error_to_string(recv, args),
            ValueFn::ErrorIsError => self.error_is_error(recv, args),
            ValueFn::ErrorStackGet => self.error_stack_get(recv, args),
            ValueFn::ErrorStackSet => self.error_stack_set(recv, args),
            ValueFn::SymbolCtor => self.symbol_ctor(args),
            ValueFn::SymbolFor => self.symbol_for(args),
            ValueFn::SymbolKeyFor => self.symbol_key_for(args),
            ValueFn::SymbolDescGet => self.symbol_desc_get(recv, args),
            ValueFn::SymbolToPrimitive => self.prim_value_of(PrimBrand::Symbol, recv, args),
            ValueFn::PrimValueOf(x) => self.prim_value_of(*x, recv, args),
            ValueFn::PrimToString(x) => self.prim_to_string(*x, recv, args),
            ValueFn::ValueToStr => self.value_to_str(recv, args),
            ValueFn::ValueOfSelf => self.value_of_self(recv, args),
            ValueFn::BigIntCtor => self.big_int_ctor(recv, args),
            ValueFn::BigIntToString => self.big_int_to_string(recv, args),
            ValueFn::NumberCtor => self.number_ctor(recv, args),
            ValueFn::BooleanCtor => self.boolean_ctor(recv, args),
            ValueFn::StringCtor => self.string_ctor(recv, args),
            ValueFn::NumIsInteger => Ok(Value::Bool(num_is_integer(args))),
            ValueFn::NumIsSafeInteger => Ok(Value::Bool(num_is_safe_integer(args))),
            ValueFn::NumIsFinite => Ok(Value::Bool(num_is_finite(args))),
            ValueFn::NumIsNaN => Ok(Value::Bool(num_is_nan(args))),
            ValueFn::IsNaN => self.global_check(args, false),
            ValueFn::GlobalIsFinite => self.global_check(args, true),
            ValueFn::NumToFixed => self.num_to_fixed(recv, args),
            ValueFn::NumToExponential => self.num_to_exponential(recv, args),
            ValueFn::NumToPrecision => self.num_to_precision(recv, args),
            ValueFn::ParseInt => self.parse_int(args),
            ValueFn::ParseFloat => self.parse_float(args),
            ValueFn::Math(x) => self.math_op(*x, args),
            ValueFn::StrFromCharCode => self.str_from_char_code(args),
            ValueFn::StrFromCodePoint => self.str_from_code_point(args),
            ValueFn::StrRaw => self.str_raw(recv, args),
            ValueFn::Str(x) => self.str_op(*x, recv, args),
            ValueFn::DateNow => self.date_now(recv, args),
            ValueFn::DateParse => self.date_parse(recv, args),
            ValueFn::DateUTC => self.date_utc(recv, args),
            ValueFn::DateCtor => self.date_ctor(recv, args),
            ValueFn::DateMethod(x) => self.date_method(*x, recv, args),
        }
    }

    /// The built-ins of arrays, collections, generators and promises.
    #[verifier::rlimit(40)]
    pub fn list_native(&mut self, f: &ListFn, recv: &Option<Value>, args: &Vec<Value>) -> (r: Result<Value, Stop>)
        requires
            old(self).wf(),
        ensures
            final(self).follows(*old(self)),
            run_value(r, *final(self)) == list_native_run(
                old(self).host(),
                old(self).pos as nat,
                *f,
                opt_view(*recv),
                views(args@),
            ),
    {
        match f {
            ListFn::ArrayCtor => self.array_ctor(recv, args),
            ListFn::ArrayPush => self.array_push(recv, args),
            ListFn::Arr(x) => self.arr_op(*x, recv, args),
            ListFn::ArrayIsArray => self.array_is_array(recv, args),
            ListFn::ArrayOf => self.array_of(recv, args),
            ListFn::ArrayFrom => self.array_from(recv, args),
            ListFn::MapCtor => self.map_ctor(recv, args),
            ListFn::SetCtor => self.set_ctor(recv, args),
            ListFn::MapOp(x) => self.map_proto(*x, recv, args),
            ListFn::SetOp(x) => self.set_proto(*x, recv, args),
            ListFn::MapSize => self.map_size(recv, args),
            ListFn::SetSize => self.set_size(recv, args),
            ListFn::MapGroupBy => self.map_group_by(recv, args),
            ListFn::MakeIter => self.make_iter(recv, args),
            ListFn::IterNext => self.iter_next(recv, args),
            ListFn::GenStep(x) => self.generator_step(*x, recv, args),
            ListFn::PromiseCtor => self.promise_ctor(recv, args),
            ListFn::PromiseSettleResolve => self.promise_settle(true, recv, args),
            ListFn::PromiseSettleReject => self.promise_settle(false, recv, args),
            ListFn::PromiseResolve => self.promise_resolve(recv, args),
            ListFn::PromiseReject => self.promise_reject(recv, args),
            ListFn::PromiseAll => self.promise_all(false, recv, args),
            ListFn::PromiseAllSettled => self.promise_all(true, recv, args),
            ListFn::PromiseRace => self.promise_race(recv, args),
            ListFn::PromiseThen => self.promise_then(recv, args),
            ListFn::PromiseCatch => self.promise_catch(recv, args),
            ListFn::PromiseFinally => self.promise_finally(recv, args),
            ListFn::PromiseWithResolvers => self.promise_with_resolvers(recv, args),
            ListFn::DynamicImport => self.dynamic_import(recv, args),
            ListFn::QueueMicrotask => self.queue_microtask(recv, args),
        }
    }

    /// The built-ins of regular expressions, JSON, addresses and the console.
    #[verifier::rlimit(40)]
    pub fn text_native(&mut self, f: &TextFn, recv: &Option<Value>, args: &Vec<Value>) -> (r: Result<Value, Stop>)
        requires
            old(self).wf(),
        ensures
            final(self).follows(*old(self)),
            run_value(r, *final(self)) == text_native_run(
                old(self).host(),
                old(self).pos as nat,
                *f,
                opt_view(*recv),
                views(args@),
            ),
    {
        match f {
            TextFn::RegExpCtor => self.regexp_ctor(recv, args),
            TextFn::RegExpEscape => self.regexp_escape(recv, args),
            TextFn::RegexFlags => self.regex_flags(recv, args),
            TextFn::RegexSource => self.regex_source(recv, args),
            TextFn::RegexFlag(x) => self.regex_flag(*x, recv),
            TextFn::RegexMatch => self.regex_match(recv, args),
            TextFn::RegexMatchAll => self.regex_match_all(recv, args),
            TextFn::RegexReplace => self.regex_replace(recv, args),
            TextFn::RegexSearch => self.regex_search(recv, args),
            TextFn::RegexSplit => self.regex_split(recv, args),
            TextFn::RegexTest => self.regex_test(recv, args),
            TextFn::RegexExec => self.regex_exec(recv, args),
            TextFn::JsonRawJson => self.json_raw_json(recv, args),
            TextFn::JsonIsRawJson => self.json_is_raw_json(recv, args),
            TextFn::JsonStringify => self.json_stringify(recv, args),
            TextFn::EncodeUri => self.encode_uri(recv, args),
            TextFn::EncodeUriComponent => self.encode_uri_component(recv, args),
            TextFn::DecodeUri => self.decode_uri(recv, args),
            TextFn::DecodeUriComponent => self.decode_uri_component(recv, args),
            TextFn::Escape => self.escape(recv, args),
            TextFn::Unescape => self.unescape(recv, args),
            TextFn::ConsoleLog => self.console_log(recv, args),
            TextFn::Print => self.console_log(recv, args),
            TextFn::Alert => self.alert(recv, args),
            TextFn::UrlToString => self.url_to_string(recv, args),
            TextFn::UrlSearchToString => self.url_search_to_string(recv, args),
            TextFn::UrlSearchGet => self.url_search_get(recv, args),
            TextFn::UrlSearchGetAll => self.url_search_get_all(recv, args),
            TextFn::UrlSearchHas => self.url_search_has(recv, args),
            TextFn::UrlSearchEdit(x) => self.url_search_edit(*x, recv, args),
            TextFn::HeadersGet => self.headers_get(recv, args),
            TextFn::HeadersHas => self.headers_has(recv, args),
        }
    }

    /// The built-ins of nodes.
    #[verifier::rlimit(40)]
    pub fn dom_native(&mut self, f: &DomFn, recv: &Option<Value>, args: &Vec<Value>) -> (r: Result<Value, Stop>)
        requires
            old(self).wf(),
        ensures
            final(self).follows(*old(self)),
            run_value(r, *final(self)) == dom_native_run(
                old(self).host(),
                old(self).pos as nat,
                *f,
                opt_view(*recv),
                views(args@),
            ),
    {
        match f {
            DomFn::GetAttribute => self.get_attribute(recv, args),
            DomFn::HasAttribute => self.has_attribute(recv, args),
            DomFn::RemoveAttribute => self.remove_attribute(recv, args),
            DomFn::SetAttribute => self.set_attribute(recv, args),
            DomFn::GetAttributeNames => self.get_attribute_names(recv, args),
            DomFn::HasAttributes => self.has_attributes(recv, args),
            DomFn::ToggleAttribute => self.toggle_attribute(recv, args),
            DomFn::GetAttributeNS => self.get_attribute_ns(recv, args),
            DomFn::HasAttributeNS => self.has_attribute_ns(recv, args),
            DomFn::RemoveAttributeNS => self.remove_attribute_ns(recv, args),
            DomFn::SetAttributeNS => self.set_attribute_ns(recv, args),
            DomFn::GetAttributeNode => self.get_attribute_node(recv, args),
            DomFn::SetAttributeNode => self.set_attribute_node(recv, args),
            DomFn::RemoveAttributeNode => self.remove_attribute_node(recv, args),
            DomFn::CharData(x) => self.char_data(*x, recv, args),
            DomFn::SplitText => self.split_text(recv, args),
            DomFn::LookupNamespaceURI => self.lookup_namespace_uri(recv, args),
            DomFn::IsDefaultNamespace => self.is_default_namespace(recv, args),
            DomFn::LookupPrefix => self.lookup_prefix(recv, args),
            DomFn::Brand => self.brand(recv, args),
            DomFn::ListItem => self.list_item(recv, args),
            DomFn::InsertBefore => self.insert_before(recv, args),
            DomFn::AppendChild => self.append_child(recv, args),
            DomFn::Put(x) => self.node_put(*x, recv, args),
            DomFn::NodeReplaceWith => self.node_replace_with(recv, args),
            DomFn::InsertAdjacentHTML => self.insert_adjacent(true, recv, args),
            DomFn::InsertAdjacentElement => self.insert_adjacent(false, recv, args),
            DomFn::ReplaceChildren => self.replace_children(recv, args),
            DomFn::RemoveElement => self.remove_element(recv, args),
            DomFn::RemoveChild => self.remove_child(recv, args),
            DomFn::CloneNode => self.clone_node(recv, args),
            DomFn::Matches => self.matches(recv, args),
            DomFn::Closest => self.closest(recv, args),
            DomFn::DomContains => self.dom_contains(recv, args),
            DomFn::DomGetRootNode => self.dom_get_root_node(recv, args),
            DomFn::DocBody => self.doc_query("body", recv, args),
            DomFn::DocHead => self.doc_query("head", recv, args),
            DomFn::DocElement => self.doc_query("html", recv, args),
            DomFn::ActiveElement => self.active_element(recv, args),
            DomFn::CurrentScript => self.current_script(recv, args),
            DomFn::CreateElement => self.create_element(recv, args),
            DomFn::CreateElementNS => self.create_element_ns(recv, args),
            DomFn::CreateTextNode => self.create_text_node(recv, args),
            DomFn::CreateComment => self.create_comment(recv, args),
            DomFn::CreateDocumentFragment => self.create_document_fragment(recv, args),
            DomFn::CreateHTMLDocument => self.create_html_document(recv, args),
            DomFn::DomParserCtor => self.dom_parser_ctor(recv, args),
            DomFn::DomParserParse => self.dom_parser_parse(recv, args),
            DomFn::DocWrite => self.doc_write(recv, args),
            DomFn::CompareDocPosition => self.compare_doc_position(recv, args),
            DomFn::GetElementsByClass => self.get_elements(true, recv, args),
            DomFn::GetElementsByTag => self.get_elements(false, recv, args),
            DomFn::QuerySelector => self.query_selector(false, recv, args),
            DomFn::QuerySelectorAll => self.query_selector(true, recv, args),
            DomFn::AttachShadow => self.attach_shadow(recv, args),
            DomFn::TakeMutations => self.take_mutations(recv, args),
            DomFn::ClassAdd => self.class_edit(true, recv, args),
            DomFn::ClassRemove => self.class_edit(false, recv, args),
            DomFn::ClassToggle => self.class_toggle(recv, args),
            DomFn::ClassReplace => self.class_replace(recv, args),
            DomFn::ClassSupports => self.class_supports(recv, args),
            DomFn::ClassItem => self.class_item(recv, args),
            DomFn::ClassValue => self.class_value(recv, args),
            DomFn::ClassContains => self.class_contains(recv, args),
        }
    }

    /// The built-ins of events, styles, requests and canvases.
    #[verifier::rlimit(40)]
    pub fn page_native(&mut self, f: &PageFn, recv: &Option<Value>, args: &Vec<Value>) -> (r: Result<Value, Stop>)
        requires
            old(self).wf(),
        ensures
            final(self).follows(*old(self)),
            run_value(r, *final(self)) == page_native_run(
                old(self).host(),
                old(self).pos as nat,
                *f,
                opt_view(*recv),
                views(args@),
            ),
    {
        match f {
            PageFn::DispatchEvent => self.dispatch_event(recv, args),
            PageFn::EventPreventDefault => self.event_prevent_default(recv, args),
            PageFn::EventStopProp => self.event_stop_prop(recv, args),
            PageFn::ElementClick => self.element_click(recv, args),
            PageFn::Focus => self.focus(recv, args),
            PageFn::Blur => self.blur(recv, args),
            PageFn::ElementAnimate => self.element_animate(recv, args),
            PageFn::GetAnimations => self.get_animations(recv, args),
            PageFn::CssSupports => self.css_supports(recv, args),
            PageFn::ScrollTo => self.scroll(false, recv, args),
            PageFn::ScrollBy => self.scroll(true, recv, args),
            PageFn::ScrollIntoView => self.scroll_into_view(recv, args),
            PageFn::GetBoundingClientRect => self.get_bounding_client_rect(recv, args),
            PageFn::LocationHref => self.location_href(recv, args),
            PageFn::LocationAssign => self.location_assign(recv, args),
            PageFn::LocationReload => self.location_reload(recv, args),
            PageFn::HistoryPushState => self.history_state(true, recv, args),
            PageFn::HistoryReplaceState => self.history_state(false, recv, args),
            PageFn::MatchMedia => self.match_media(recv, args),
            PageFn::CookieGet => self.cookie_get(recv, args),
            PageFn::CookieSet => self.cookie_set(recv, args),
            PageFn::ComputedGetProperty => self.computed_get_property(recv, args),
            PageFn::BindElementClass => self.bind_element_class(recv, args),
            PageFn::StyleSheets => self.style_sheets(recv, args),
            PageFn::SheetInsertRule => self.sheet_insert_rule(recv, args),
            PageFn::SheetDeleteRule => self.sheet_delete_rule(recv, args),
            PageFn::RuleStyleGet => self.rule_style_get(recv, args),
            PageFn::RuleStyleItem => self.rule_style_item(recv, args),
            PageFn::RuleStyleSet => self.rule_style_set(recv, args),
            PageFn::RuleStyleRemove => self.rule_style_remove(recv, args),
            PageFn::StyleSetProperty => self.style_set_property(recv, args),
            PageFn::StyleGetProperty => self.style_get_property(recv, args),
            PageFn::StyleRemoveProperty => self.style_remove_property(recv, args),
            PageFn::GetNamedItem => self.get_named_item(recv, args),
            PageFn::WsSend => self.ws_send(recv, args),
            PageFn::WsClose => self.ws_close(recv, args),
            PageFn::XhrOpen => self.xhr_open(recv, args),
            PageFn::XhrSetHeader => self.xhr_set_header(recv, args),
            PageFn::XhrGetHeader => self.xhr_get_header(recv, args),
            PageFn::XhrSend => self.xhr_send(recv, args),
            PageFn::Fetch => self.fetch(recv, args),
            PageFn::ResponseText => self.response_text(recv, args),
            PageFn::ResponseJson => self.response_json(recv, args),
            PageFn::ResponseArrayBuffer => self.response_array_buffer(recv, args),
            PageFn::ZeroBytes => self.zero_bytes(recv, args),
            PageFn::CanvasGetContext => self.canvas_get_context(recv, args),
            PageFn::Canvas(x) => self.canvas_method(*x, recv, args),
            PageFn::WindowSelf => self.ask_value(Op::GlobalValue, list1(text_value("window"))),
            PageFn::WasmValidate => self.wasm_validate(recv, args),
            PageFn::WasmCompile => self.wasm_compile(recv, args),
            PageFn::WasmMemPages => self.wasm_mem_pages(recv, args),
            PageFn::WasmRegisterMemory => self.wasm_register_memory(recv, args),
            PageFn::WasmGrow => self.wasm_grow(recv, args),
            PageFn::WasmInstantiate => self.wasm_instantiate(recv, args),
            PageFn::WasmTableGet(x) => self.wasm_table_get(*x, recv, args),
        }
    }

    /// A built-in of what a page keeps.
    #[verifier::rlimit(40)]
    pub fn state_native(
        &mut self,
        f: &StateFn,
        recv: &Option<Value>,
        args: &Vec<Value>,
        page: &mut Page,
    ) -> (r: Result<Value, Stop>)
        requires
            old(self).wf(),
            old(page).wf(),
            old(page).timers.next_id < u64::MAX,
        ensures
            final(self).follows(*old(self)),
            final(page).wf(),
            native_result(
                r,
                *final(self),
                old(page)@,
                final(page)@,
                state_native_run(
                    old(self).host(),
                    old(self).pos as nat,
                    *f,
                    opt_view(*recv),
                    views(args@),
                    old(page)@,
                ),
            ),
    {
        match f {
            StateFn::LsGetItem => self.ls_get_item(&page.storage, args),
            StateFn::LsLength => self.ls_length(&page.storage),
            StateFn::LsKey => self.ls_key(&page.storage, args),
            StateFn::LsSetItem => self.ls_set_item(&mut page.storage, args),
            StateFn::LsRemoveItem => self.ls_remove_item(&mut page.storage, args),
            StateFn::LsClear => self.ls_clear(&mut page.storage),
            StateFn::SetTimeout => self.set_timer(&mut page.timers, false, args),
            StateFn::SetInterval => self.set_timer(&mut page.timers, true, args),
            StateFn::ClearTimer => self.clear_timer(&mut page.timers, args),
            StateFn::AddEventListener => self.add_event_listener(&mut page.listeners, recv, args),
            StateFn::RemoveEventListener => self.remove_event_listener(&mut page.listeners, recv, args),
            StateFn::AddGlobalListener => self.add_global_listener(&mut page.listeners, args),
            StateFn::RemoveGlobalListener => self.remove_global_listener(&mut page.listeners, args),
            StateFn::DispatchGlobalEvent => self.dispatch_global_event(&page.listeners, args),
        }
    }

    /// Runs a built-in.
    pub fn call_native_inner(
        &mut self,
        n: &Builtin,
        recv: &Option<Value>,
        args: &Vec<Value>,
        page: &mut Page,
        source: Option<&JsonSrc>,
    ) -> (r: Result<Value, Stop>)
        requires
            old(self).wf(),
            old(page).wf(),
            old(page).timers.next_id < u64::MAX,
        ensures
            final(self).follows(*old(self)),
            final(page).wf(),
            native_result(
                r,
                *final(self),
                old(page)@,
                final(page)@,
                call_native_inner_run(
                    old(self).host(),
                    old(self).pos as nat,
                    *n,
                    opt_view(*recv),
                    views(args@),
                    old(page)@,
                    source,
                ),
            ),
    {
        match n {
            Builtin::Object(f) => self.object_native(f, recv, args),
            Builtin::Value(f) => self.value_native(f, recv, args),
            Builtin::List(f) => self.list_native(f, recv, args),
            Builtin::Text(f) => self.text_native(f, recv, args),
            Builtin::Dom(f) => self.dom_native(f, recv, args),
            Builtin::Page(f) => self.page_native(f, recv, args),
            Builtin::State(f) => self.state_native(f, recv, args, page),
            Builtin::JsonParse => self.json_parse(args, source),
            Builtin::EventCtor(interface) => self.event_ctor(interface.as_str(), recv, args),
            Builtin::WasmCall(i, f) => self.wasm_call(*i, *f, recv, args),
            Builtin::WasmGlobalGet(i, g) => self.wasm_global_get(*i, *g, recv, args),
            Builtin::WasmGlobalSet(i, g) => self.wasm_global_set(*i, *g, recv, args),
            Builtin::Platform(f) => self.ask_value(Op::Platform(*f), cat(list1(this_or_undefined(recv)), args)),
        }
    }

    /// Runs a built-in, and after it schedules that those are told who observe the document. A run
    /// that is repeated with one more reply starts from the same page.
    pub fn call_native(
        &mut self,
        n: &Builtin,
        recv: &Option<Value>,
        args: &Vec<Value>,
        page: &mut Page,
        source: Option<&JsonSrc>,
    ) -> (r: Result<Value, Stop>)
        requires
            old(self).wf(),
            old(page).wf(),
            old(page).timers.next_id < u64::MAX,
        ensures
            final(self).follows(*old(self)),
            final(page).wf(),
            native_result(
                r,
                *final(self),
                old(page)@,
                final(page)@,
                call_native_run(
                    old(self).host(),
                    old(self).pos as nat,
                    *n,
                    opt_view(*recv),
                    views(args@),
                    old(page)@,
                    source,
                ),
            ),
    {
        let before: Page = page.copy();
        let r: Result<Value, Stop> = self.call_native_inner(n, recv, args, page, source);
        if let Err(Stop::Ask(_)) = &r {
            return r;
        }
        let none: Vec<Value> = empty_list();
        assert(views(none@) =~= Seq::empty());
        match self.ask_value(Op::DeliverMutations, none) {
            Err(Stop::Ask(q)) => {
                *page = before;
                Err(Stop::Ask(q))
            },
            _ => r,
        }
    }
}

/// A run that waits for the answer to a question.
pub open spec fn stopped<T>(out: Result<T, Halt>) -> bool {
    out matches Err(Halt::Ask(_))
}

/// A built-in that is not of what a page keeps leaves the page as it was.
pub proof fn law_page_kept(
    h: Host,
    pos: nat,
    n: Builtin,
    recv: Option<Val>,
    args: Seq<Val>,
    page: PageV,
    source: Option<&JsonSrc>,
)
    requires
        !(n is State),
        call_native_run(h, pos, n, recv, args, page, source).out is Ok,
    ensures
        call_native_run(h, pos, n, recv, args, page, source).out->Ok_0.1 == page,
{
}

/// That the observers of the document are told is scheduled once after every call that ended: the
/// call itself is the same with and without them.
pub proof fn law_delivery_after(
    h: Host,
    pos: nat,
    n: Builtin,
    recv: Option<Val>,
    args: Seq<Val>,
    page: PageV,
    source: Option<&JsonSrc>,
)
    ensures
        ({
            let inner = call_native_inner_run(h, pos, n, recv, args, page, source);
            let whole = call_native_run(h, pos, n, recv, args, page, source);
            &&& whole.out == inner.out || stopped(whole.out)
            &&& !stopped(inner.out) && inner.pos < h.len ==> whole.out == inner.out && whole.pos
                == inner.pos + 1
        }),
{
}

} // verus!
