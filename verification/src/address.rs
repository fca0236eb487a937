//! Names of function types, of function instances and of external sinks.

use vstd::prelude::*;
use vstd::std_specs::cmp::PartialEqSpecImpl;

verus! {

/// What a [`FunctionType`] is: a namespace and a name.
pub struct FunctionTypeView {
    pub namespace: Seq<char>,
    pub name: Seq<char>,
}

/// What an [`EgressIdentifier`] is: a namespace and a name.
pub struct EgressIdentifierView {
    pub namespace: Seq<char>,
    pub name: Seq<char>,
}

/// What an [`Address`] is: the type of a function and the id of one instance of it.
pub struct AddressView {
    pub function_type: FunctionTypeView,
    pub id: Seq<char>,
}

/// The text `namespace/name`.
pub open spec fn qualified_name(namespace: Seq<char>, name: Seq<char>) -> Seq<char> {
    namespace + seq!['/'] + name
}

/// Where no namespace holds a `/`, the text `namespace/name` says which
/// namespace and which name it was made from.
pub proof fn lemma_qualified_name_injective(
    namespace: Seq<char>,
    name: Seq<char>,
    other_namespace: Seq<char>,
    other_name: Seq<char>,
)
    requires
        !namespace.contains('/'),
        !other_namespace.contains('/'),
        qualified_name(namespace, name) == qualified_name(other_namespace, other_name),
    ensures
        namespace == other_namespace,
        name == other_name,
{
    let text = qualified_name(namespace, name);
    let other = qualified_name(other_namespace, other_name);
    assert(text[namespace.len() as int] == '/');
    assert(other[other_namespace.len() as int] == '/');
    if namespace.len() < other_namespace.len() {
        assert(other[namespace.len() as int] == other_namespace[namespace.len() as int]);
    }
    if other_namespace.len() < namespace.len() {
        assert(text[other_namespace.len() as int] == namespace[other_namespace.len() as int]);
    }
    assert(namespace =~= text.subrange(0, namespace.len() as int));
    assert(other_namespace =~= other.subrange(0, other_namespace.len() as int));
    assert(name =~= text.subrange(namespace.len() as int + 1, text.len() as int));
    assert(other_name =~= other.subrange(other_namespace.len() as int + 1, other.len() as int));
}

/// A class of stateful functions: a namespace and a name, neither of them empty.
#[derive(Debug, Hash)]
pub struct FunctionType {
    namespace: String,
    name: String,
}

impl View for FunctionType {
    type V = FunctionTypeView;

    closed spec fn view(&self) -> FunctionTypeView {
        FunctionTypeView { namespace: self.namespace@, name: self.name@ }
    }
}

impl FunctionType {
    #[verifier::type_invariant]
    spec fn non_empty(&self) -> bool {
        self.namespace@.len() > 0 && self.name@.len() > 0
    }

    pub fn new(namespace: &str, name: &str) -> (r: FunctionType)
        requires
            namespace@.len() > 0,
            name@.len() > 0,
        ensures
            r@ == (FunctionTypeView { namespace: namespace@, name: name@ }),
    {
        FunctionType { namespace: namespace.to_string(), name: name.to_string() }
    }

    pub fn namespace(&self) -> (r: &str)
        ensures
            r@ == self@.namespace,
            r@.len() > 0,
    {
        proof {
            use_type_invariant(self);
        }
        self.namespace.as_str()
    }

    pub fn name(&self) -> (r: &str)
        ensures
            r@ == self@.name,
            r@.len() > 0,
    {
        proof {
            use_type_invariant(self);
        }
        self.name.as_str()
    }

    /// The text `namespace/name`, under which the type goes on the wire.
    pub fn canonical(&self) -> (r: String)
        ensures
            r@ == qualified_name(self@.namespace, self@.name),
    {
        let r = self.namespace.clone().concat("/").concat(self.name.as_str());
        proof {
            reveal_strlit("/");
            assert("/"@ =~= seq!['/']);
        }
        r
    }
}

impl Clone for FunctionType {
    fn clone(&self) -> (r: Self)
        ensures
            r@ == self@,
    {
        proof {
            use_type_invariant(self);
        }
        FunctionType { namespace: self.namespace.clone(), name: self.name.clone() }
    }
}

impl PartialEq for FunctionType {
    fn eq(&self, other: &Self) -> (r: bool) {
        self.namespace == other.namespace && self.name == other.name
    }
}

impl PartialEqSpecImpl for FunctionType {
    open spec fn obeys_eq_spec() -> bool {
        true
    }

    open spec fn eq_spec(&self, other: &Self) -> bool {
        self@ == other@
    }
}

impl Eq for FunctionType {

}

/// One instance of a stateful function: its type and its id.
#[derive(Debug, Hash)]
pub struct Address {
    function_type: FunctionType,
    id: String,
}

impl View for Address {
    type V = AddressView;

    closed spec fn view(&self) -> AddressView {
        AddressView { function_type: self.function_type@, id: self.id@ }
    }
}

impl Address {
    pub fn new(function_type: FunctionType, id: &str) -> (r: Address)
        ensures
            r@ == (AddressView { function_type: function_type@, id: id@ }),
    {
        Address { function_type, id: id.to_string() }
    }

    pub fn function_type(&self) -> (r: &FunctionType)
        ensures
            r@ == self@.function_type,
    {
        &self.function_type
    }

    pub fn id(&self) -> (r: &str)
        ensures
            r@ == self@.id,
    {
        self.id.as_str()
    }

    /// The text `namespace/name/id`.
    pub fn canonical(&self) -> (r: String)
        ensures
            r@ == qualified_name(
                qualified_name(self@.function_type.namespace, self@.function_type.name),
                self@.id,
            ),
    {
        let r = self.function_type.canonical().concat("/").concat(self.id.as_str());
        proof {
            reveal_strlit("/");
            assert("/"@ =~= seq!['/']);
        }
        r
    }
}

impl Clone for Address {
    fn clone(&self) -> (r: Self)
        ensures
            r@ == self@,
    {
        Address { function_type: self.function_type.clone(), id: self.id.clone() }
    }
}

impl PartialEq for Address {
    fn eq(&self, other: &Self) -> (r: bool) {
        self.function_type == other.function_type && self.id == other.id
    }
}

impl PartialEqSpecImpl for Address {
    open spec fn obeys_eq_spec() -> bool {
        true
    }

    open spec fn eq_spec(&self, other: &Self) -> bool {
        self@ == other@
    }
}

impl Eq for Address {

}

/// An external sink: a namespace and a name, neither of them empty. Sinks and
/// function types are named apart: the two types do not convert.
#[derive(Debug, Hash)]
pub struct EgressIdentifier {
    namespace: String,
    name: String,
}

impl View for EgressIdentifier {
    type V = EgressIdentifierView;

    closed spec fn view(&self) -> EgressIdentifierView {
        EgressIdentifierView { namespace: self.namespace@, name: self.name@ }
    }
}

impl EgressIdentifier {
    #[verifier::type_invariant]
    spec fn non_empty(&self) -> bool {
        self.namespace@.len() > 0 && self.name@.len() > 0
    }

    pub fn new(namespace: &str, name: &str) -> (r: EgressIdentifier)
        requires
            namespace@.len() > 0,
            name@.len() > 0,
        ensures
            r@ == (EgressIdentifierView { namespace: namespace@, name: name@ }),
    {
        EgressIdentifier { namespace: namespace.to_string(), name: name.to_string() }
    }

    pub fn namespace(&self) -> (r: &str)
        ensures
            r@ == self@.namespace,
            r@.len() > 0,
    {
        proof {
            use_type_invariant(self);
        }
        self.namespace.as_str()
    }

    pub fn name(&self) -> (r: &str)
        ensures
            r@ == self@.name,
            r@.len() > 0,
    {
        proof {
            use_type_invariant(self);
        }
        self.name.as_str()
    }

    /// The text `namespace/name`, under which the sink goes on the wire.
    pub fn canonical(&self) -> (r: String)
        ensures
            r@ == qualified_name(self@.namespace, self@.name),
    {
        let r = self.namespace.clone().concat("/").concat(self.name.as_str());
        proof {
            reveal_strlit("/");
            assert("/"@ =~= seq!['/']);
        }
        r
    }
}

impl Clone for EgressIdentifier {
    fn clone(&self) -> (r: Self)
        ensures
            r@ == self@,
    {
        proof {
            use_type_invariant(self);
        }
        EgressIdentifier { namespace: self.namespace.clone(), name: self.name.clone() }
    }
}

impl PartialEq for EgressIdentifier {
    fn eq(&self, other: &Self) -> (r: bool) {
        self.namespace == other.namespace && self.name == other.name
    }
}

impl PartialEqSpecImpl for EgressIdentifier {
    open spec fn obeys_eq_spec() -> bool {
        true
    }

    open spec fn eq_spec(&self, other: &Self) -> bool {
        self@ == other@
    }
}

impl Eq for EgressIdentifier {

}

} // verus!
