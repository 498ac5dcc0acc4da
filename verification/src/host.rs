//! The conversation between a built-in and the engine that runs it.
//!
//! Reading a property may run a getter, calling a callback may do anything: whatever only the
//! engine can do is a question, and the engine's answer is a reply. A built-in is run on the
//! replies that have been given so far. It either finishes, or stops at the first question that
//! has no reply yet; the engine then answers that question and runs the built-in again with one
//! more reply. The functions of this crate say for every sequence of replies what a built-in asks
//! next or what it finishes with.
use crate::number::Num;
use crate::property::Integrity;
use crate::value::{clone_values, truthy, views, ErrorKind, Val, Value};
use vstd::prelude::*;

verus! {

/// The objects that every realm has one of.
#[derive(Clone, Copy, Debug, PartialEq, Eq, Structural)]
pub enum Intrinsic {
    Object,
    Array,
    FunctionPrototype,
    StringPrototype,
    NumberPrototype,
    BooleanPrototype,
    SymbolPrototype,
    BigIntPrototype,
    MapPrototype,
    SetPrototype,
    DatePrototype,
    Error,
    IteratorPrototype,
}

/// The kinds of primitive values that methods of wrapper objects insist on.
#[derive(Clone, Copy, Debug, PartialEq, Eq, Structural)]
pub enum PrimBrand {
    Boolean,
    Number,
    Str,
    Symbol,
}

/// Functions of one number that only floating point can compute.
#[derive(Debug, Clone, Copy, PartialEq, Eq, Structural)]
pub enum RealFn {
    Acos,
    Acosh,
    Asin,
    Asinh,
    Atan,
    Atanh,
    Cbrt,
    Ceil,
    Cos,
    Cosh,
    Exp,
    Expm1,
    Floor,
    Fround,
    Log,
    Log10,
    Log1p,
    Log2,
    Sin,
    Sinh,
    Sqrt,
    Tan,
    Tanh,
    Trunc,
}

/// The forms in which a date is written.
#[derive(Debug, Clone, Copy, PartialEq, Eq, Structural)]
pub enum DateStyle {
    Full,
    DateOnly,
    TimeOnly,
    Utc,
    Iso,
}

/// The shapes that are drawn as polygons.
#[derive(Debug, Clone, Copy, PartialEq, Eq, Structural)]
pub enum Shape {
    Bezier,
    Quadratic,
    Ellipse,
    RoundRect,
    Rect,
    Arc,
    /// The round end of a line.
    Circle,
}

/// The commands that a canvas takes.
#[derive(Debug, Clone, Copy, PartialEq, Eq, Structural)]
pub enum DrawCmd {
    SetShadow,
    PutImage,
    Clip,
    Unclip,
    SetTransform,
    DrawImage,
    FillGradient,
    FillPattern,
    FillRect,
    ClearRect,
    StrokeRect,
    FillText,
    FillPath,
}

/// The built-ins that the engine has itself.
#[derive(Debug, Clone, Copy, PartialEq, Eq, Structural)]
pub enum PlatformFn {
    GetElementById,
    FunctionCtor,
    Eval,
    ObjectCtor,
    GetComputedStyle,
    XhrCtor,
    WebSocketCtor,
    UrlCtor,
    StructuredClone,
}

/// How a generator goes on.
#[derive(Debug, Clone, Copy, PartialEq, Eq, Structural)]
pub enum Resume {
    Next,
    Return,
    Throw,
}

/// What a built-in asks the engine to do. The comment names the arguments and the reply.
#[derive(Clone, Copy, Debug, PartialEq, Eq, Structural)]
pub enum Op {
    /// `[object, key]`: the value of the property, after running a getter.
    Get,
    /// `[object, key]`: whether the object or its prototype chain has the property.
    Has,
    /// `[object, key, value, receiver]`: whether the assignment succeeded.
    Assign,
    /// `[object, key]`: whether the own property is gone.
    Delete,
    /// `[function, this, arguments..]`: the result of the call.
    Call,
    /// `[function, arguments..]`: the result of a call without a `this`.
    CallBare,
    /// `[constructor, arguments..]`: the new object.
    Construct,
    /// `[value]`: the value as a number.
    ToNumber,
    /// `[value]`: the value as a string.
    ToText,
    /// `[value]`: the value as an integral number or an infinity.
    ToInteger,
    /// `[value]`: whether the value is an array, or a proxy of one.
    IsArray,
    /// `[value]`: whether the value can be constructed.
    IsConstructor,
    /// `[]`: one of the realm's objects.
    Intrinsic(Intrinsic),
    /// `[array]`: the number of elements.
    ArrayLen,
    /// `[array, index]`: whether the index is below the length and no hole.
    ArrayPresent,
    /// `[object, key]`: the stored own property, or none.
    OwnSlot,
    /// `[object]`: the own enumerable string keys, in order.
    Keys,
    /// `[object]`: the keys of what it stores, in order, as strings; of a class, of its static
    /// members, accessors too.
    StoredKeys,
    /// `[array]`: the stored elements.
    Elements,
    /// `[elements..]`: a new array.
    NewArray,
    /// `[index, ..]` after the elements' count and the elements: a new array with holes.
    NewSparseArray,
    /// `[key, value, ..]`: a new plain object; a later value of a key takes the earlier one's place.
    NewObject,
    /// `[array, index]`: whether the index is a hole.
    ArrayHole,
    /// `[array]`: the keys of its properties besides its elements and its length, in the order in
    /// which they were added.
    ArrayProps,
    /// `[instance]`: its class.
    ClassOf,
    /// `[class]`: what it extends, or none.
    ClassParent,
    /// `[proxy]`: its target; throws where the proxy was revoked.
    ProxyTarget,
    /// `[proxy]`: its handler.
    ProxyHandler,
    /// `[object]`: whether it takes no new properties.
    NonExtensible,
    /// `[primitive, prototype, class name, characters..]`: a wrapper object around the primitive;
    /// the characters of a string become its elements.
    NewWrapper,
    /// `[value]`: whether the value is a regular expression.
    IsRegex,
    /// `[value]`: the value as the console shows it.
    Display,
    /// `[number]`: the number as JSON writes it.
    JsonNumber,
    /// `[object]`: the primitive that a wrapper object wraps, or none.
    Wrapped,
    /// `[object]`: whether the object is a date.
    IsDate,
    /// `[date]`: its ISO text, or none where it is no time.
    DateIso,
    /// `[object, key, value]`: stores the value under the key as it is.
    StoreSlot,
    /// `[]`: the sockets that have opened since the last time.
    SocketsOpened,
    /// `[]`: the sockets that have failed since the last time.
    SocketsFailed,
    /// `[]`: the number of sockets.
    SocketCount,
    /// `[index]`: what has arrived at a socket since the last time, three values for each event:
    /// `"message", text, undefined`, or `"binary", bytes, undefined`, or `"close", code, reason`.
    SocketPoll,
    /// `[index]`: the object of a socket.
    SocketObject,
    /// `[bytes]`: a new array buffer with these bytes.
    NewArrayBuffer,
    /// `[socket, event name, event..]`: runs the socket's listeners for the event.
    SocketFire,
    /// `[value]`: the value as a number, without running any code of the program.
    PlainNumber,
    /// `[value]`: the value as an integer of 32 bits.
    ToInt32,
    /// `[text]`: the double that a decimal literal stands for.
    DecimalNumber,
    /// `[radix, digits]`: the double that the digits come to, one digit after the other.
    DigitsNumber,
    /// `[number, radix]`: the number's digits in another base.
    RadixText,
    /// `[number, digits]`: the number with so many decimals.
    FixedText,
    /// `[number, digits]`: the number in exponential form; digits undefined for as many as needed.
    ExponentialText,
    /// `[number, digits]`: the number with so many significant digits.
    PrecisionText,
    /// `[number]`: the number as the language writes it.
    NumberText,
    /// `[value]`: the primitive of this kind that the value is or wraps; throws where there is none.
    ThisPrimitive(PrimBrand),
    /// `[]`: a number that no symbol was made with before.
    NextSymbol,
    /// `[function, this, arguments..]`: a new bound function.
    NewBound,
    /// `[value, constructor]`: whether the value is an instance, by the constructor's prototype.
    InstanceOf,
    /// `[target, handler]`: a new proxy.
    NewProxy,
    /// `[proxy]`: revokes the proxy.
    RevokeProxy,
    /// `[function]`: its source text, or none.
    FunctionSource,
    /// `[function]`: its name.
    FunctionName,
    /// `[function]`: whether it is asynchronous, whether it is a generator, and the names of its
    /// parameters.
    FunctionShape,
    /// `[value]`: the key that the value stands for as a property key.
    ToKey,
    /// `[object]`: whether it is frozen, whether it is sealed and whether it takes no new
    /// properties; none where that is not kept.
    IntegrityBits,
    /// `[object]`: the object counts as frozen, sealed or closed from now on; its properties stay.
    SetIntegrity(Integrity),
    /// `[object]`: whether the object could be closed to new properties.
    PreventExtensions,
    /// `[proxy]`: whether the proxy takes new properties.
    ProxyExtensible,
    /// `[object, key]`: whether the global object has a binding of this name.
    GlobalHas,
    /// `[class, key]`: whether the class has a static member, getter or setter of this name.
    ClassMember,
    /// `[function, key]`: whether this property of a built-in function was deleted.
    NativeDeleted,
    /// `[function, key]`: whether this property was given to a built-in function.
    NativeAdded,
    /// `[function, key]`: whether a built-in constructor has this property from the start.
    NativeMember,
    /// `[constructor, new target, arguments..]`: the new object.
    ConstructWith,
    /// `[object, prototype]`: whether the prototype could be set.
    SetProto,
    /// `[proxy]`: its own keys as its trap reports them, checked against its target.
    ProxyKeys,
    /// `[function]`: the names of a built-in constructor's properties.
    NativeKeys,
    /// `[function]`: the names of the properties that a built-in function was given.
    NativeAddedKeys,
    /// `[function]`: whether it has a `prototype` of its own.
    HasPrototype,
    /// `[number]` of something thrown, or `[message]` of an error: the message.
    ThrownMessage,
    /// `[value]`: everything that iterating over the value gives.
    IterateAll,
    /// `[value]`: an iterator over the value, or none where it has none.
    Iterator,
    /// `[iterator]`: its next value, or none at its end.
    IterStep,
    /// `[iterator]`: closes the iterator.
    IterClose,
    /// `[key, value, ..]`: a new map.
    NewMap,
    /// `[value]`: the source and the flags of a regular expression, or none.
    RegexParts,
    /// `[flags]`: what is wrong with the flags of a regular expression, or none.
    BadRegexFlags,
    /// `[source, flags]`: why that is no regular expression, or none where it is one.
    RegexFault,
    /// `[source, flags, text, from]`: the first match from there on, or none: its start, its end,
    /// and for each group, the whole match first, its start and its end, or undefined twice. Places
    /// count characters.
    RegexFind,
    /// `[source, flags]`: the names of its groups, each with the group's number.
    RegexGroups,
    /// `[source, flags]`: a new regular expression.
    NewRegex,
    /// `[number]`: the number plus one.
    PlusOne,
    /// `[items..]`: an iterator over the items.
    NewIterator,
    /// `[value]`: whether the value counts as a regular expression, by its `@@match`.
    IsRegexLike,
    /// `[value]`: whether the value is the prototype of regular expressions.
    IsRegexProto,
    /// `[text]`: the text with everything escaped that a regular expression gives a meaning.
    RegexEscaped,
    /// `[value]`: the value as a primitive, preferring a string.
    ToPrimitiveText,
    /// `[array]`: whether it has holes.
    HasHoles,
    /// `[array]`: makes its holes undefined elements.
    FillHoles,
    /// `[array, elements..]`: gives the array these elements, and no holes.
    StoreElements,
    /// `[array, values..]`: adds the values behind the array's last place; its holes stay.
    AppendElements,
    /// `[object, elements..]`: gives an array-like object these elements and their number as its
    /// length, as `Interp::write_back_array_like` does.
    WriteBack,
    /// `[array]`: whether it is frozen.
    IsFrozen,
    /// `[array]`: whether its length can be changed.
    LengthWritable,
    /// `[value]`: whether `concat` takes the value's elements in place of the value.
    ConcatSpreadable,
    /// `[object, key, value]`: sets an own property, whatever stands there.
    SetOwn,
    /// `[object]`: whether it has a length like an array's, by `Interp::is_array_like`.
    IsArrayLike,
    /// `[object]`: the elements of an array-like object, by its length and its own indices, as
    /// `Interp::array_like_to_vec` gives them.
    ArrayLikeItems,
    /// `[object, key]`: whether the stored own property is writable, enumerable and configurable.
    Attributes,
    /// `[object, key, writable, enumerable, configurable]`: sets these of a stored property.
    SetAttributes,
    /// `[object, key]`, then what a descriptor object would hold: stores an own property.
    StoreProperty,
    /// `[object, key]`: removes an own property that the engine keeps for itself.
    DropSlot,
    /// `[accessor]`: its getter, or none.
    AccessorGet,
    /// `[accessor]`: its setter, or none.
    AccessorSet,
    /// `[getter, setter]`, undefined for none: a new accessor.
    NewAccessor,
    /// `[function]`: the number of arguments that it expects.
    FunctionLength,
    /// `[function]`: the number of its parameters.
    ParamCount,
    /// `[class, key]`: the static getter of this name, or none.
    StaticGetter,
    /// `[class, key]`: the static setter of this name, or none.
    StaticSetter,
    /// `[function, key]`: the descriptor of a built-in constructor's property, or none.
    NativeDescriptor,
    /// `[function, key, value]`: gives a property to a built-in function.
    GiveNative,
    /// `[key]`: the key as a trap gets it.
    TrapKey,
    /// `[object]`: whether it takes new properties, as a proxy's trap reports it.
    Extensible,
    /// `[array, key]`: the stored element or property, whatever parameter it stands for.
    StoredSlot,
    /// `[array, length]`: whether the length could be set.
    SetLength,
    /// `[array]`: makes its length fixed.
    FixLength,
    /// `[array, index]`: whether the element stands for a parameter.
    MappedParam,
    /// `[array, index]`: the element no longer stands for a parameter.
    UnmapParam,
    /// `[array, index, value]`: sets the parameter that the element stands for.
    SetParam,
    /// `[array, index, value]`: stores an element; places that are skipped become holes.
    StoreElement,
    /// `[object]`: a new object with this prototype.
    NewWithProto,
    /// `[value]`: the value as a number of single precision.
    Single,
    /// `[values..]`: the values as numbers of single precision.
    Singles,
    /// `[parameters..]`: the coordinates of the points that make up a shape.
    Points(Shape),
    /// `[angle]`: the six numbers of a rotation.
    Rotation,
    /// `[six numbers, six numbers]`: the transformation that does the one and after it the other.
    Compose,
    /// `[text]`: red, green, blue and opacity of a colour; nothing where the text names none.
    Colour,
    /// `[opacity, factor]`: the opacity with the factor applied.
    ScaleOpacity,
    /// `[number]`: the number kept between zero and one.
    ClampUnit,
    /// `[coordinates..]`: left edge, top edge, width and height of the box around some points.
    Bounds,
    /// `[canvas]`: the last shadow that was sent to it; nothing where there was none.
    LastShadow,
    /// `[canvas, parameters..]`: sends a command to a canvas.
    Draw(DrawCmd),
    /// `[message]`: warns, once for each message.
    CanvasWarn,
    /// `[number]` of something that a listener has thrown: reports it as a line of its own, behind
    /// `[js error]`.
    ReportError,
    /// `[node]`: the text of an image element's `src`, or none.
    ImageSource,
    /// `[text]`: the address that a text stands for on this page.
    AbsoluteUrl,
    /// `[address]`: the number of a loaded image, or none.
    ImageAt,
    /// `[]`: whether there is anything to draw with.
    CanRender,
    /// `[canvas, width, height]`: the canvas as it is drawn so far, four bytes for each point.
    Raster,
    /// `[node, name]`: an attribute's text, or none.
    AttributeText,
    /// `[text]`: the number of single precision that the text stands for, or none.
    ParseSingle,
    /// `[text, size]`: the width of a text.
    TextWidth,
    /// `[width, anchor]`: how far a text is moved to the side.
    AlignShift,
    /// `[size, baseline]`: how far a text is moved down.
    BaselineShift,
    /// `[number, number]`: their sum, in single precision.
    Sum,
    /// `[size]`: how far letters reach above and below the line.
    TextExtents,
    /// `[number]`: the number, or one where that is more.
    AtLeastOne,
    /// `[x, y, x, y]`: whether two points are so close that no line joins them.
    TooShort,
    /// `[x, y, x, y, width, extended at the start, extended at the end]`: the corners of a line.
    LineOutline,
    /// `[x, y, x, y, x, y, width, side, mitred]`: the corners that fill the bend between two lines.
    BendOutline,
    /// `[]`: the time now, in milliseconds.
    Now,
    /// `[time]`: the time where it is one that a date can have.
    TimeClip,
    /// `[text]`: the time that a text stands for; not a number where it stands for none.
    ParseDate,
    /// `[time]`: year, month from zero on, day, hours, minutes, seconds, milliseconds and weekday.
    DateParts,
    /// `[year, month, day, hours, minutes, seconds, milliseconds]`: the time; years up to 99 are
    /// of the last century.
    FullDate,
    /// `[year, month, day, hours, minutes, seconds, milliseconds]`: the time; years as they are.
    ExactDate,
    /// `[time]`: the time as a text.
    DateText(DateStyle),
    /// `[time]`: a new date.
    NewDate,
    /// `[value]`: the value as a primitive, without a preference.
    ToPrimitiveAny,
    /// `[value]`: the value as a primitive, preferring a number.
    ToPrimitiveNumber,
    /// `[]`: whether the function was called to construct something.
    HasNewTarget,
    /// `[number, number]`: the one less the other.
    Minus,
    /// `[number]`: a function of one number that only floating point can compute.
    Real(RealFn),
    /// `[base, exponent]`: the power.
    Power,
    /// `[y, x]`: the angle of a point.
    Atan2,
    /// `[number, number]`: the length of the hypotenuse.
    Hypot,
    /// `[number]`: the greatest integer that is not above the number plus one half.
    RoundHalfUp,
    /// `[value]`: the value as an integer of 32 bits, without running any code of the program.
    PlainInt32,
    /// `[]`: the next number of the random sequence, between zero and one.
    Random,
    /// `[line]`: writes a line to the console.
    Console,
    /// `[integer]`: a big integer as a number.
    BigIntNumber,
    /// `[integer, base]`: a big integer's digits.
    BigIntText,
    /// `[value]`: the value as a primitive, preferring a string; what is thrown is ignored.
    QuietPrimitive,
    /// `[function]`: calls the function when the running code has ended.
    QueueMicrotask,
    /// `[text]`: the value that a JSON text stands for; throws where it is none.
    ParseJson,
    /// `[constructor, arguments..]`: what a built-in constructor returns when it is called.
    CallCtor,
    /// `[text]`: the names and values of a query, one after the other.
    ParseQuery,
    /// `[name, value, ..]`: the query with these names and values.
    BuildQuery,
    /// `[]`: a new promise.
    NewPromise,
    /// `[promise, value]`: resolves the promise.
    ResolvePromise,
    /// `[promise, value]`: rejects the promise.
    RejectPromise,
    /// `[method, address, body, name, value, ..]`, body undefined for none: sends a request and
    /// gives the status, the body's text, the number under which its bytes are kept, and the
    /// names and values of the headers; where there was no answer, only a text that says why.
    Http,
    /// `[request, name]`: runs a request object's listeners for an event.
    XhrFire,
    /// `[value]`: the number, or zero where that is more; without running any code.
    DelayOf,
    /// `[object]`: its stored fields, `key, value, ..`, also those that the engine keeps; of a
    /// class, its static members that are no accessors.
    StoredFields,
    /// `[text]`: the address that a request goes to.
    ResolveUrl,
    /// `[value]`: whether the value is a promise.
    IsPromise,
    /// `[name]`: the value of a global name, or none.
    GlobalValue,
    /// `[value]`: whether the value counts as fulfilled, and what it is fulfilled or rejected with.
    SettleState,
    /// `[promise, fulfilled, rejected, promise]`: has callbacks run when the first promise is
    /// settled, and the second one settled by what they do; gives the second one.
    PromiseThen,
    /// `[]`: runs everything that waits for the running code to end.
    DrainMicrotasks,
    /// `[generator]`: whether it is asynchronous.
    IsAsyncGen,
    /// `[generator, value]`: lets the generator go on until it yields or ends.
    GenResume(Resume),
    /// `[result]`: the result of a step with its value awaited.
    AwaitResult,
    /// `[generator]`: ends the generator.
    GenDone,
    /// `[number]` of something thrown, or `[message]` of an error: what was thrown.
    ThrownValue,
    /// `[number]`: the bytes of a body that were kept under the number, as an array buffer; none
    /// where there are none.
    BodyBuffer,
    /// `[count]`: a new array of so many zeros.
    Zeros,
    /// `[address]`: runs a module and gives its namespace.
    RunModule,
    /// `[event]`: the key under which an object keeps its listeners for the event.
    ListenerKey,
    /// `[function, function]`: whether both are the same function.
    SameCallable,
    /// `[event, node]`: a new event object.
    MakeEvent,
    /// `[node, event, object]`: runs the listeners of a node and of what it stands in.
    DispatchTo,
    /// `[interface]`: the prototype of events of this interface, or none.
    EventProto,
    /// `[]`: the node that has the focus, or none.
    ActiveNode,
    /// `[node]`, undefined for none: gives the focus to a node.
    SetActive,
    /// `[node]`: those of the inputs that a click on the node may change that are checked, as
    /// `click::checked_inputs` gives them.
    CheckedInputs,
    /// `[node]`: toggles a checkbox or a radio button, as `click::pre_click_toggle` does; whether
    /// it was one.
    ToggleBeforeClick,
    /// `[node, nodes..]`: of the inputs that a click on the node may change, checks just these, as
    /// `click::restore_checked` does.
    RestoreChecked,
    /// `[node]`: does what a click on the node does, as `click::click_default_action` has it.
    ClickDefault,
    /// `[class list]`: its tokens, in order.
    ClassTokens,
    /// `[class list, tokens..]`: gives it these tokens.
    SetClassTokens,
    /// `[tokens..]`: throws where one of them is empty or holds a space.
    CheckTokens,
    /// `[class list]`: the text of the class attribute.
    ClassText,
    /// `[node]`: `"element"`, `"text"` or `"comment"`.
    NodeKind,
    /// `[node]`: what it stands in, or none.
    NodeParent,
    /// `[node]`: what stands in it, in order.
    NodeChildren,
    /// `[node]`: everything that it stands in, from its parent on.
    Ancestors,
    /// `[node]`: the text of a text or a comment.
    NodeData,
    /// `[node, text]`: sets the text of a text or a comment.
    SetNodeData,
    /// `[element]`: its namespace where that is not HTML's, or none.
    ElementNamespace,
    /// `[node]`: the names of its attributes, in order.
    AttributeNames,
    /// `[node, name, value]`: sets an attribute.
    SetAttributeText,
    /// `[node, name]`: removes an attribute.
    DropAttribute,
    /// `[node, text]`: the name that an attribute gets; throws where the text is no name.
    AttributeName,
    /// `[parent, node, reference]`: throws where the node cannot stand there.
    CheckInsert,
    /// `[parent, node, reference]`, undefined for the end: puts a node into another.
    InsertNode,
    /// `[parent, node]`: puts a node at the end of another.
    AppendNode,
    /// `[node]`: takes a node out of what it stands in.
    DetachNode,
    /// `[node]`: takes everything out of a node.
    ClearNode,
    /// `[text]`: a new text.
    NewText,
    /// `[text]`: a new comment.
    NewComment,
    /// `[tag]`: a new element.
    NewElement,
    /// `[namespace, name]`, undefined for none: a new element.
    NewElementNs,
    /// `[tag]`: throws where the text is no tag.
    CheckTag,
    /// `[name, namespace]`: throws where the two do not go together.
    CheckQualifiedName,
    /// `[values..]`: the nodes among the values, and new texts for the others, in order.
    NodesOfValues,
    /// `[node]`: whether the node is a fragment, as `dom::is_fragment` tells it.
    IsFragment,
    /// `[text]`: whether the text is a list of selectors.
    IsSelector,
    /// `[node, text]`: whether a list of selectors fits the node.
    SelectorFits,
    /// `[node, deep]`: a copy of the node.
    CopyNode,
    /// `[text]`: the nodes that a text of HTML makes.
    ParseHtml,
    /// `[node, prefix]`: the namespace of a prefix, or none.
    LocateNamespace,
    /// `[node, namespace]`: a prefix of a namespace, or none.
    LocatePrefix,
    /// `[]`: the root of the document.
    DocumentRoot,
    /// `[tag]`: the first element of a tag in the document, or none.
    FindTag,
    /// `[node]`: the name of an element's interface.
    InterfaceName,
    /// `[node, name]`: an attribute as a node.
    NewAttr,
    /// `[attribute]`: the element of an attribute node.
    AttrOwner,
    /// `[attribute]`: the name of an attribute node.
    AttrName,
    /// `[node]`: its place in the document, or none, as `dom::preorder_index` gives it.
    DocumentIndex,
    /// `[value]`: the name of the value's type.
    TypeOf,
    /// `[node, text]`: the elements under a node that have the class; without the node itself where
    /// it is no root.
    ByClass,
    /// `[node, text]`: the elements under a node that have the tag.
    ByTag,
    /// `[]`: the script that is running, or none.
    CurrentScript,
    /// `[node, text, all]`, undefined for the document: what a selector finds.
    Query,
    /// `[]`: whether there is a document.
    HasDocument,
    /// `[]`: the document's body, as `dom::find_body` gives it.
    DocumentBody,
    /// `[node]`: the scripts among a node and what stands in it, in order, as
    /// `dom::collect_script_nodes` gives them.
    ScriptsIn,
    /// `[node]`: the text of a node and of what stands in it.
    TextContent,
    /// `[source, code]`, source undefined for none: has a script run later.
    WriteScript,
    /// `[node]`: marks a node as one with a shadow.
    MarkShadowHost,
    /// `[]`: what was recorded of changes to the document, six values for each: its kind, its
    /// target, the attribute or undefined, the value before or undefined, an array of the nodes
    /// that came and an array of those that went.
    TakeRecords,
    /// `[object]`: what it holds in its slot for a collection, or none.
    CollectionSlot,
    /// `[map, arguments..]`: one of the methods of maps, by its number.
    MapMethod(u64),
    /// `[set, arguments..]`: one of the methods of sets, by its number.
    SetMethod(u64),
    /// `[collection]`: the number of its entries.
    CollectionSize,
    /// `[arguments..]`: a new map, filled from the first argument.
    MakeMap,
    /// `[arguments..]`: a new set, filled from the first argument.
    MakeSet,
    /// `[set]`: its values, in order.
    SetItems,
    /// `[map]`: its keys and values, in order, `key, value, ..`.
    MapEntries,
    /// `[message]`, undefined for none: a new error.
    MakeError(ErrorKind),
    /// `[error, arguments..]`: gives an error the cause that the arguments name.
    InstallCause,
    /// `[number]`: the number as a big integer; none where it is no integer.
    BigIntOfNumber,
    /// `[text]`: the big integer that a text stands for, or none.
    BigIntOfText,
    /// `[key]`: the name of a style's property that a script's name stands for.
    DashedName,
    /// `[node, name, value]`: sets a property of a node's style.
    SetStyle,
    /// `[node, name]`: a property of a node's style.
    StyleText,
    /// `[text]`: whether a condition on styles is supported.
    StyleSupported,
    /// `[x, y, relative]`: scrolls the page.
    SetScroll,
    /// `[node]`: left edge, top edge, width and height of a node; nothing where it has none.
    LayoutRect,
    /// `[]`: the address of the page, or none.
    BaseUrl,
    /// `[address]`, undefined for none: leaves the page for an address.
    Navigate,
    /// `[text]`: the page has another address from now on.
    UpdateLocation,
    /// `[]`: the page's cookies.
    Cookies,
    /// `[text]`: stores a cookie.
    StoreCookie,
    /// `[text]`: whether a media query holds.
    MediaMatches,
    /// `[style, name]`: a property of a computed style, or none.
    ComputedProperty,
    /// `[element, class]`: the class of an element's own.
    BindClass,
    /// `[]`: the style sheets of the document.
    StyleSheetList,
    /// `[sheet, text, index]`: inserts a rule.
    InsertRule,
    /// `[sheet, index]`: deletes a rule.
    DeleteRule,
    /// `[style, name]`: a property of a rule's style.
    RuleProperty,
    /// `[style, index]`, the index as text: the name of a property of a rule's style.
    RuleItem,
    /// `[style, name, value]`: sets a property of a rule's style.
    SetRuleProperty,
    /// `[index]`: whether there is a socket of this number.
    HasSocket,
    /// `[index, bytes..]`: sends bytes.
    SendBytes,
    /// `[index, text]`: sends a text.
    SendText,
    /// `[index]`: closes a socket.
    CloseSocket,
    /// `[canvas]`: gets a canvas ready to be drawn on.
    OpenCanvas,
    /// `[array, key]`: a property of an array that is no element, or none.
    ArrayProperty,
    /// `[bytes..]`: whether these are a module of WebAssembly.
    WasmValid,
    /// `[bytes..]`: the number of a new module; throws where the bytes are none.
    WasmParse,
    /// `[index]`: whether there is a module of this number.
    WasmModule,
    /// `[index]`: the least number of pages of a module's own memory, or none.
    WasmMemPages,
    /// `[array, object]`: the number under which an array is a memory from now on.
    WasmRegister,
    /// `[index]`: whether there is a memory of this number.
    WasmMemory,
    /// `[index, pages]`: grows a memory and gives its size before; less than zero where it cannot
    /// grow.
    WasmGrow,
    /// `[]`: gives each memory object the array that its memory has now.
    WasmSync,
    /// `[module, imports, memory]`: a new instance.
    WasmInstantiate,
    /// `[instance]`: whether there is an instance of this number.
    WasmInstance,
    /// `[instance, function]`: whether there is such a function.
    WasmFunction,
    /// `[instance, function]`: the types of a function's parameters.
    WasmParams,
    /// `[instance, function, arguments..]`: the results of a call.
    WasmCall,
    /// `[instance, index]`: the value of a global, or none.
    WasmGlobal,
    /// `[instance, index, value]`: sets a global; whether there is one.
    WasmSetGlobal,
    /// `[instance, index]`: the function at a place of a table, or none.
    WasmTable,
    /// `[this, arguments..]`: a built-in that the engine has itself.
    Platform(PlatformFn),
    /// `[]`: schedules that the observers of changes to the document are told, where something has
    /// changed; none of them runs before the present built-in has ended.
    DeliverMutations,
}

/// A question to the engine.
#[derive(Debug)]
pub struct Ask {
    pub op: Op,
    pub args: Vec<Value>,
}

/// The engine's answer.
#[derive(Debug)]
pub enum Reply {
    Value(Value),
    /// There is no such value.
    Absent,
    List(Vec<Value>),
    /// Something was thrown; the engine keeps it under this number.
    Throw(u64),
}

/// The names of the exceptions of the document's interfaces.
#[derive(Debug, Clone, Copy, PartialEq, Eq, Structural)]
pub enum DomError {
    IndexSizeError,
    InvalidCharacterError,
}

/// What was thrown.
#[derive(Debug)]
pub enum Exception {
    /// Something that the engine keeps.
    Thrown(u64),
    /// An error that a built-in raises, with its message.
    Error(ErrorKind, String),
    /// An exception of the document's interfaces, with its message.
    Dom(DomError, String),
}

/// Why a built-in did not finish with a value.
#[derive(Debug)]
pub enum Stop {
    /// It needs the answer to a question.
    Ask(Ask),
    /// It threw.
    Throw(Exception),
}

/// The mathematical counterpart of `Ask`.
#[verifier::ext_equal]
pub struct Question {
    pub op: Op,
    pub args: Seq<Val>,
}

/// The mathematical counterpart of `Reply`.
#[verifier::ext_equal]
pub enum Answer {
    Value(Val),
    Absent,
    List(Seq<Val>),
    Throw(u64),
}

/// The mathematical counterpart of `Exception`.
#[verifier::ext_equal]
pub enum Thrown {
    Thrown(u64),
    Error(ErrorKind, Seq<char>),
    Dom(DomError, Seq<char>),
}

/// The mathematical counterpart of `Stop`.
#[verifier::ext_equal]
pub enum Halt {
    Ask(Question),
    Throw(Thrown),
}

/// A run of a built-in: how it ended, and how many replies it had read by then.
#[verifier::ext_equal]
pub struct Run<T> {
    pub out: Result<T, Halt>,
    pub pos: nat,
}

/// An engine as a built-in sees it: the first `len` questions are answered, each by a reply that
/// may depend on how many were asked before.
pub struct Host {
    pub len: nat,
    pub reply: spec_fn(nat, Question) -> Answer,
}

impl View for Ask {
    type V = Question;

    open spec fn view(&self) -> Question {
        Question { op: self.op, args: views(self.args@) }
    }
}

impl View for Reply {
    type V = Answer;

    open spec fn view(&self) -> Answer {
        match *self {
            Reply::Value(v) => Answer::Value(v@),
            Reply::Absent => Answer::Absent,
            Reply::List(l) => Answer::List(views(l@)),
            Reply::Throw(n) => Answer::Throw(n),
        }
    }
}

impl View for Exception {
    type V = Thrown;

    open spec fn view(&self) -> Thrown {
        match *self {
            Exception::Thrown(n) => Thrown::Thrown(n),
            Exception::Error(k, m) => Thrown::Error(k, m@),
            Exception::Dom(k, m) => Thrown::Dom(k, m@),
        }
    }
}

impl View for Stop {
    type V = Halt;

    open spec fn view(&self) -> Halt {
        match *self {
            Stop::Ask(q) => Halt::Ask(q@),
            Stop::Throw(e) => Halt::Throw(e@),
        }
    }
}

/// A run that has finished with `v`.
pub open spec fn done<T>(v: T, pos: nat) -> Run<T> {
    Run { out: Ok(v), pos }
}

/// A run that has not.
pub open spec fn halted<T>(h: Halt, pos: nat) -> Run<T> {
    Run { out: Err(h), pos }
}

/// A run that raises an error.
pub open spec fn raised<T>(kind: ErrorKind, message: Seq<char>, pos: nat) -> Run<T> {
    halted(Halt::Throw(Thrown::Error(kind, message)), pos)
}

/// One run after another: the second starts from what the first finished with.
pub open spec fn chain<T, U>(r: Run<T>, next: spec_fn(T, nat) -> Run<U>) -> Run<U> {
    match r.out {
        Ok(v) => next(v, r.pos),
        Err(e) => halted(e, r.pos),
    }
}

/// The run finishes with `v`, unless it still waits for an answer.
pub open spec fn settles<T>(r: Run<T>, v: T) -> bool {
    match r.out {
        Ok(x) => x == v,
        Err(e) => e is Ask,
    }
}

/// How far a run comes that asks these questions one after the other, whatever the answers, and
/// ends with `v`.
pub open spec fn plays<T>(h: Host, pos: nat, questions: Seq<Question>, v: T) -> Run<T> {
    if h.len < pos + questions.len() {
        halted(Halt::Ask(questions[h.len - pos]), h.len)
    } else {
        done(v, pos + questions.len())
    }
}

/// The question that a run asks after `k` replies; none where it has ended by then.
pub open spec fn question_at<T>(run: spec_fn(Host) -> Run<T>, h: Host, k: nat) -> Option<Question> {
    match run(Host { len: k, reply: h.reply }).out {
        Err(Halt::Ask(q)) => Some(q),
        _ => None,
    }
}

/// One question.
pub open spec fn asked(h: Host, pos: nat, q: Question) -> Run<Answer> {
    if pos >= h.len {
        halted(Halt::Ask(q), pos)
    } else {
        match (h.reply)(pos, q) {
            Answer::Throw(n) => halted(Halt::Throw(Thrown::Thrown(n)), pos + 1),
            r => done(r, pos + 1),
        }
    }
}

/// The value in a reply; undefined where it holds none.
pub open spec fn value_in(r: Answer) -> Val {
    match r {
        Answer::Value(v) => v,
        _ => Val::Undefined,
    }
}

/// The slot in a reply: a value or nothing.
pub open spec fn slot_in(r: Answer) -> Option<Val> {
    match r {
        Answer::Value(v) => Some(v),
        _ => None,
    }
}

/// The list in a reply; empty where it holds none.
pub open spec fn list_in(r: Answer) -> Seq<Val> {
    match r {
        Answer::List(l) => l,
        _ => Seq::empty(),
    }
}

/// The bits of the quiet NaN.
pub const NAN_BITS: u64 = 0x7ff8_0000_0000_0000;

/// The number in a value; NaN where it is none.
pub open spec fn number_in(v: Val) -> Num {
    match v {
        Val::Num(n) => n,
        _ => Num { bits: NAN_BITS },
    }
}

/// The text in a value; empty where it is none.
pub open spec fn text_in(v: Val) -> Seq<char> {
    match v {
        Val::Str(s) => s,
        _ => Seq::empty(),
    }
}

pub open spec fn ask_value(h: Host, pos: nat, op: Op, args: Seq<Val>) -> Run<Val> {
    let r = asked(h, pos, Question { op, args });
    match r.out {
        Ok(a) => done(value_in(a), r.pos),
        Err(e) => halted(e, r.pos),
    }
}

pub open spec fn ask_flag(h: Host, pos: nat, op: Op, args: Seq<Val>) -> Run<bool> {
    let r = ask_value(h, pos, op, args);
    match r.out {
        Ok(v) => done(truthy(v), r.pos),
        Err(e) => halted(e, r.pos),
    }
}

pub open spec fn ask_number(h: Host, pos: nat, op: Op, args: Seq<Val>) -> Run<Num> {
    let r = ask_value(h, pos, op, args);
    match r.out {
        Ok(v) => done(number_in(v), r.pos),
        Err(e) => halted(e, r.pos),
    }
}

pub open spec fn ask_text(h: Host, pos: nat, op: Op, args: Seq<Val>) -> Run<Seq<char>> {
    let r = ask_value(h, pos, op, args);
    match r.out {
        Ok(v) => done(text_in(v), r.pos),
        Err(e) => halted(e, r.pos),
    }
}

pub open spec fn ask_slot(h: Host, pos: nat, op: Op, args: Seq<Val>) -> Run<Option<Val>> {
    let r = asked(h, pos, Question { op, args });
    match r.out {
        Ok(a) => done(slot_in(a), r.pos),
        Err(e) => halted(e, r.pos),
    }
}

pub open spec fn ask_list(h: Host, pos: nat, op: Op, args: Seq<Val>) -> Run<Seq<Val>> {
    let r = asked(h, pos, Question { op, args });
    match r.out {
        Ok(a) => done(list_in(a), r.pos),
        Err(e) => halted(e, r.pos),
    }
}

/// Get(o, key).
pub open spec fn get(h: Host, pos: nat, o: Val, key: Seq<char>) -> Run<Val> {
    ask_value(h, pos, Op::Get, seq![o, Val::Str(key)])
}

/// Get(o, key) where an exception counts as undefined.
pub open spec fn get_quietly(h: Host, pos: nat, o: Val, key: Seq<char>) -> Run<Val> {
    let g = get(h, pos, o, key);
    match g.out {
        Err(Halt::Throw(_)) => done(Val::Undefined, g.pos),
        _ => g,
    }
}

/// HasProperty(o, key).
pub open spec fn has(h: Host, pos: nat, o: Val, key: Seq<char>) -> Run<bool> {
    ask_flag(h, pos, Op::Has, seq![o, Val::Str(key)])
}

/// Call(f, this, args).
pub open spec fn call(h: Host, pos: nat, f: Val, this: Option<Val>, args: Seq<Val>) -> Run<Val> {
    match this {
        Some(t) => ask_value(h, pos, Op::Call, seq![f, t] + args),
        None => ask_value(h, pos, Op::CallBare, seq![f] + args),
    }
}

/// What identifies something thrown in a question about it.
pub open spec fn thrown_key(t: Thrown) -> Val {
    match t {
        Thrown::Thrown(n) => Val::Num(crate::array_live::count_num(n as nat)),
        Thrown::Error(_, m) => Val::Str(m),
        Thrown::Dom(_, m) => Val::Str(m),
    }
}

pub fn key_of_thrown(t: &Exception) -> (r: Value)
    ensures
        r@ == thrown_key(t@),
{
    match t {
        Exception::Thrown(n) => Value::Num(crate::functions::index_number(*n)),
        Exception::Error(_, m) => Value::Str(m.clone()),
        Exception::Dom(_, m) => Value::Str(m.clone()),
    }
}

/// A call whose exception is dropped.
pub open spec fn call_quietly(h: Host, pos: nat, f: Val, this: Option<Val>, args: Seq<Val>) -> Run<()> {
    let c = call(h, pos, f, this, args);
    match c.out {
        Err(Halt::Ask(q)) => halted(Halt::Ask(q), c.pos),
        _ => done((), c.pos),
    }
}

/// Construct(c, args).
pub open spec fn construct(h: Host, pos: nat, c: Val, args: Seq<Val>) -> Run<Val> {
    ask_value(h, pos, Op::Construct, seq![c] + args)
}

/// The interpreter as its built-ins see it: the replies of the engine so far, and how many of them
/// the present run has read.
pub struct Interp {
    pub replies: Vec<Reply>,
    pub pos: usize,
}

/// The engine that has given these replies.
pub open spec fn tape(replies: Seq<Reply>) -> Host {
    Host { len: replies.len(), reply: |i: nat, q: Question| replies[i as int]@ }
}

pub open spec fn run_value(r: Result<Value, Stop>, it: Interp) -> Run<Val> {
    match r {
        Ok(v) => done(v@, it.pos as nat),
        Err(e) => halted(e@, it.pos as nat),
    }
}

pub open spec fn run_slot(r: Result<Option<Value>, Stop>, it: Interp) -> Run<Option<Val>> {
    match r {
        Ok(Some(v)) => done(Some(v@), it.pos as nat),
        Ok(None) => done(None, it.pos as nat),
        Err(e) => halted(e@, it.pos as nat),
    }
}

pub open spec fn run_text(r: Result<String, Stop>, it: Interp) -> Run<Seq<char>> {
    match r {
        Ok(v) => done(v@, it.pos as nat),
        Err(e) => halted(e@, it.pos as nat),
    }
}

pub open spec fn run_list(r: Result<Vec<Value>, Stop>, it: Interp) -> Run<Seq<Val>> {
    match r {
        Ok(v) => done(views(v@), it.pos as nat),
        Err(e) => halted(e@, it.pos as nat),
    }
}

/// A run with a result that is its own view.
pub open spec fn run_plain<T>(r: Result<T, Stop>, it: Interp) -> Run<T> {
    match r {
        Ok(v) => done(v, it.pos as nat),
        Err(e) => halted(e@, it.pos as nat),
    }
}

pub fn list1(a: Value) -> (r: Vec<Value>)
    ensures
        views(r@) == seq![a@],
{
    let mut v: Vec<Value> = Vec::new();
    v.push(a);
    assert(views(v@) =~= seq![a@]);
    v
}

pub fn list2(a: Value, b: Value) -> (r: Vec<Value>)
    ensures
        views(r@) == seq![a@, b@],
{
    let mut v: Vec<Value> = Vec::new();
    v.push(a);
    v.push(b);
    assert(views(v@) =~= seq![a@, b@]);
    v
}

pub fn list3(a: Value, b: Value, c: Value) -> (r: Vec<Value>)
    ensures
        views(r@) == seq![a@, b@, c@],
{
    let mut v: Vec<Value> = Vec::new();
    v.push(a);
    v.push(b);
    v.push(c);
    assert(views(v@) =~= seq![a@, b@, c@]);
    v
}

pub fn list4(a: Value, b: Value, c: Value, d: Value) -> (r: Vec<Value>)
    ensures
        views(r@) == seq![a@, b@, c@, d@],
{
    let mut v: Vec<Value> = Vec::new();
    v.push(a);
    v.push(b);
    v.push(c);
    v.push(d);
    assert(views(v@) =~= seq![a@, b@, c@, d@]);
    v
}

/// The stop of a built-in that raises an exception of the document's interfaces.
pub fn fail_dom(kind: DomError, message: &str) -> (r: Stop)
    ensures
        r@ == Halt::Throw(Thrown::Dom(kind, message@)),
{
    Stop::Throw(Exception::Dom(kind, message.to_owned()))
}

/// The stop of a built-in that raises an error.
pub fn fail(kind: ErrorKind, message: &str) -> (r: Stop)
    ensures
        r@ == Halt::Throw(Thrown::Error(kind, message@)),
{
    Stop::Throw(Exception::Error(kind, message.to_owned()))
}

/// A string value.
pub fn text_value(s: &str) -> (r: Value)
    ensures
        r@ == Val::Str(s@),
{
    Value::Str(s.to_owned())
}

impl Interp {
    /// Has read no more replies than there are.
    pub open spec fn wf(self) -> bool {
        self.pos <= self.replies@.len()
    }

    /// The engine that this interpreter talks to.
    pub open spec fn host(self) -> Host {
        tape(self.replies@)
    }

    /// Comes after `before` in the same run.
    pub open spec fn follows(self, before: Interp) -> bool {
        &&& self.replies@ == before.replies@
        &&& before.pos <= self.pos
        &&& self.wf()
    }

    /// An interpreter at the start of a run on these replies.
    pub fn new(replies: Vec<Reply>) -> (r: Interp)
        ensures
            r.wf(),
            r.pos == 0,
            r.replies == replies,
    {
        Interp { replies, pos: 0 }
    }

    /// Asks the engine.
    pub fn ask(&mut self, op: Op, args: Vec<Value>) -> (r: Result<Reply, Stop>)
        requires
            old(self).wf(),
        ensures
            final(self).follows(*old(self)),
            ({
                let s = asked(
                    old(self).host(),
                    old(self).pos as nat,
                    Question { op, args: views(args@) },
                );
                &&& final(self).pos == s.pos
                &&& match r {
                    Ok(a) => s.out == Ok::<Answer, Halt>(a@),
                    Err(e) => s.out == Err::<Answer, Halt>(e@),
                }
            }),
    {
        if self.pos >= self.replies.len() {
            return Err(Stop::Ask(Ask { op, args }));
        }
        let i: usize = self.pos;
        self.pos = i + 1;
        match &self.replies[i] {
            Reply::Value(v) => Ok(Reply::Value(v.clone())),
            Reply::Absent => Ok(Reply::Absent),
            Reply::List(l) => Ok(Reply::List(clone_values(l))),
            Reply::Throw(n) => Err(Stop::Throw(Exception::Thrown(*n))),
        }
    }

    pub fn ask_value(&mut self, op: Op, args: Vec<Value>) -> (r: Result<Value, Stop>)
        requires
            old(self).wf(),
        ensures
            final(self).follows(*old(self)),
            run_value(r, *final(self)) == ask_value(
                old(self).host(),
                old(self).pos as nat,
                op,
                views(args@),
            ),
    {
        match self.ask(op, args)? {
            Reply::Value(v) => Ok(v),
            _ => Ok(Value::Undefined),
        }
    }

    pub fn ask_flag(&mut self, op: Op, args: Vec<Value>) -> (r: Result<bool, Stop>)
        requires
            old(self).wf(),
        ensures
            final(self).follows(*old(self)),
            run_plain(r, *final(self)) == ask_flag(
                old(self).host(),
                old(self).pos as nat,
                op,
                views(args@),
            ),
    {
        let v: Value = self.ask_value(op, args)?;
        Ok(crate::value::to_bool(&v))
    }

    pub fn ask_number(&mut self, op: Op, args: Vec<Value>) -> (r: Result<Num, Stop>)
        requires
            old(self).wf(),
        ensures
            final(self).follows(*old(self)),
            run_plain(r, *final(self)) == ask_number(
                old(self).host(),
                old(self).pos as nat,
                op,
                views(args@),
            ),
    {
        match self.ask_value(op, args)? {
            Value::Num(n) => Ok(n),
            _ => Ok(Num { bits: NAN_BITS }),
        }
    }

    pub fn ask_text(&mut self, op: Op, args: Vec<Value>) -> (r: Result<String, Stop>)
        requires
            old(self).wf(),
        ensures
            final(self).follows(*old(self)),
            run_text(r, *final(self)) == ask_text(
                old(self).host(),
                old(self).pos as nat,
                op,
                views(args@),
            ),
    {
        match self.ask_value(op, args)? {
            Value::Str(s) => Ok(s),
            _ => Ok(String::new()),
        }
    }

    pub fn ask_slot(&mut self, op: Op, args: Vec<Value>) -> (r: Result<Option<Value>, Stop>)
        requires
            old(self).wf(),
        ensures
            final(self).follows(*old(self)),
            run_slot(r, *final(self)) == ask_slot(
                old(self).host(),
                old(self).pos as nat,
                op,
                views(args@),
            ),
    {
        match self.ask(op, args)? {
            Reply::Value(v) => Ok(Some(v)),
            _ => Ok(None),
        }
    }

    pub fn ask_list(&mut self, op: Op, args: Vec<Value>) -> (r: Result<Vec<Value>, Stop>)
        requires
            old(self).wf(),
        ensures
            final(self).follows(*old(self)),
            run_list(r, *final(self)) == ask_list(
                old(self).host(),
                old(self).pos as nat,
                op,
                views(args@),
            ),
    {
        match self.ask(op, args)? {
            Reply::List(l) => Ok(l),
            _ => {
                let v: Vec<Value> = Vec::new();
                assert(views(v@) =~= Seq::empty());
                Ok(v)
            },
        }
    }

    /// Get(o, key).
    pub fn member_get(&mut self, o: &Value, key: &str) -> (r: Result<Value, Stop>)
        requires
            old(self).wf(),
        ensures
            final(self).follows(*old(self)),
            run_value(r, *final(self)) == get(old(self).host(), old(self).pos as nat, o@, key@),
    {
        self.ask_value(Op::Get, list2(o.clone(), text_value(key)))
    }

    /// Get(o, key) where an exception counts as undefined.
    pub fn member_get_quietly(&mut self, o: &Value, key: &str) -> (r: Result<Value, Stop>)
        requires
            old(self).wf(),
        ensures
            final(self).follows(*old(self)),
            run_value(r, *final(self)) == get_quietly(
                old(self).host(),
                old(self).pos as nat,
                o@,
                key@,
            ),
    {
        match self.member_get(o, key) {
            Err(Stop::Throw(_)) => Ok(Value::Undefined),
            r => r,
        }
    }

    /// HasProperty(o, key).
    pub fn has_property(&mut self, o: &Value, key: &str) -> (r: Result<bool, Stop>)
        requires
            old(self).wf(),
        ensures
            final(self).follows(*old(self)),
            run_plain(r, *final(self)) == has(old(self).host(), old(self).pos as nat, o@, key@),
    {
        self.ask_flag(Op::Has, list2(o.clone(), text_value(key)))
    }

    /// Call(f, this, args).
    pub fn call_value(&mut self, f: Value, this: Option<Value>, args: Vec<Value>) -> (r: Result<
        Value,
        Stop,
    >)
        requires
            old(self).wf(),
        ensures
            final(self).follows(*old(self)),
            run_value(r, *final(self)) == call(
                old(self).host(),
                old(self).pos as nat,
                f@,
                opt_view(this),
                views(args@),
            ),
    {
        let ghost given = views(args@);
        let mut args: Vec<Value> = args;
        let (op, mut all): (Op, Vec<Value>) = match this {
            Some(t) => (Op::Call, list2(f, t)),
            None => (Op::CallBare, list1(f)),
        };
        let ghost front = views(all@);
        all.append(&mut args);
        assert(views(all@) =~= front + given);
        self.ask_value(op, all)
    }

    /// Calls a function and drops what it throws.
    pub fn call_quietly(&mut self, f: Value, this: Option<Value>, args: Vec<Value>) -> (r: Result<
        (),
        Stop,
    >)
        requires
            old(self).wf(),
        ensures
            final(self).follows(*old(self)),
            run_plain(r, *final(self)) == call_quietly(
                old(self).host(),
                old(self).pos as nat,
                f@,
                opt_view(this),
                views(args@),
            ),
    {
        match self.call_value(f, this, args) {
            Err(Stop::Ask(q)) => Err(Stop::Ask(q)),
            _ => Ok(()),
        }
    }

    /// Construct(c, args).
    pub fn construct(&mut self, c: Value, args: Vec<Value>) -> (r: Result<Value, Stop>)
        requires
            old(self).wf(),
        ensures
            final(self).follows(*old(self)),
            run_value(r, *final(self)) == construct(
                old(self).host(),
                old(self).pos as nat,
                c@,
                views(args@),
            ),
    {
        let ghost given = views(args@);
        let mut args: Vec<Value> = args;
        let mut all: Vec<Value> = list1(c);
        let ghost front = views(all@);
        all.append(&mut args);
        assert(views(all@) =~= front + given);
        self.ask_value(Op::Construct, all)
    }
}

pub open spec fn opt_view(v: Option<Value>) -> Option<Val> {
    match v {
        Some(x) => Some(x@),
        None => None,
    }
}

/// Copies an optional value.
pub fn clone_opt(v: &Option<Value>) -> (r: Option<Value>)
    ensures
        opt_view(r) == opt_view(*v),
{
    match v {
        Some(x) => Some(x.clone()),
        None => None,
    }
}

} // verus!
