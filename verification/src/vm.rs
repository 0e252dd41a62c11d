//! Handles to runtime objects, and the facts about them that the dumpers reason on.
use vstd::prelude::*;
use crate::attributes::FIELD_ATTRIBUTE_STATIC;
use crate::text::str_eq;

verus! {

/// A value that can be handed to a managed method as a raw machine word.
pub trait Il2cppValue {
    /// The machine word that stands for the value.
    spec fn raw_word(&self) -> usize;

    /// The machine word that stands for the value.
    fn as_raw(&self) -> (r: usize)
        ensures
            r == self.raw_word(),
    ;
}

/// A loaded assembly, by address.
pub struct Assembly(pub usize);

/// A class, by address.
pub struct Il2cppClass(pub usize);

/// The metadata definition of a class, by address.
pub struct Il2CppTypeDefinition(pub usize);

/// The application domain, by address.
pub struct Il2cppDomain(pub usize);

/// The image of an assembly, by address.
pub struct Il2cppImage(pub usize);

/// A method, by address.
pub struct Il2cppMethod(pub usize);

/// A runtime type, by address.
pub struct Il2cppType(pub usize);

/// A managed string, by address.
pub struct Il2cppString(pub usize);

/// A managed object, by address.
#[derive(Debug)]
pub struct Il2cppObject(pub usize);

/// The result of a method that returns nothing.
pub struct Void;

/// A field of a class: where it is and the attributes of its type.
pub struct Il2cppField {
    /// Address of the field's record.
    pub address: usize,
    /// Offset of the field's data in an object.
    pub offset: u32,
    /// Attributes of the field's type.
    pub type_attrs: u32,
}

impl Il2cppValue for Il2cppObject {
    /// The address (for `usize`, the number itself).
    open spec fn raw_word(&self) -> usize {
        self.0
    }

    fn as_raw(&self) -> usize {
        self.0
    }
}

impl Il2cppValue for Il2cppString {
    /// The address (for `usize`, the number itself).
    open spec fn raw_word(&self) -> usize {
        self.0
    }

    fn as_raw(&self) -> usize {
        self.0
    }
}

impl Il2cppValue for usize {
    /// The address (for `usize`, the number itself).
    open spec fn raw_word(&self) -> usize {
        *self
    }

    fn as_raw(&self) -> usize {
        *self
    }
}

impl Assembly {
    /// The assembly at an address; `None` for the null address.
    pub fn new(address: usize) -> (r: Option<Self>)
        ensures
            address == 0 <==> r is None,
            r matches Some(a) ==> a.0 == address,
    {
        if address != 0 {
            Some(Assembly(address))
        } else {
            None
        }
    }
}

impl Il2cppImage {
    /// The image at an address; `None` for the null address.
    pub fn new(address: usize) -> (r: Option<Self>)
        ensures
            address == 0 <==> r is None,
            r matches Some(i) ==> i.0 == address,
    {
        if address != 0 {
            Some(Il2cppImage(address))
        } else {
            None
        }
    }
}

impl Il2cppClass {
    /// The class at an address; `None` for the null address (a class without
    /// parent, a failed lookup).
    pub fn new(address: usize) -> (r: Option<Self>)
        ensures
            address == 0 <==> r is None,
            r matches Some(c) ==> c.0 == address,
    {
        if address != 0 {
            Some(Il2cppClass(address))
        } else {
            None
        }
    }

    /// The first of the class's methods with the given name and argument type
    /// names, in order.
    pub fn find_method(methods: &[MethodSignature], name: &str, arg_types: &[&str]) -> (r: Option<
        Il2cppMethod,
    >)
        ensures
            r is None <==> forall|i: int|
                0 <= i < methods@.len() ==> !spec_signature_matches(
                    #[trigger] methods@[i],
                    name@,
                    arg_types@.map_values(|t: &str| t@),
                ),
            r matches Some(m) ==> exists|i: int|
                0 <= i < methods@.len() && spec_signature_matches(
                    #[trigger] methods@[i],
                    name@,
                    arg_types@.map_values(|t: &str| t@),
                ) && methods@[i].method.0 == m.0 && forall|j: int|
                    0 <= j < i ==> !spec_signature_matches(
                        #[trigger] methods@[j],
                        name@,
                        arg_types@.map_values(|t: &str| t@),
                    ),
    {
        let ghost wanted = arg_types@.map_values(|t: &str| t@);
        let mut i: usize = 0;
        while i < methods.len()
            invariant
                i <= methods@.len(),
                wanted == arg_types@.map_values(|t: &str| t@),
                forall|j: int|
                    0 <= j < i ==> !spec_signature_matches(#[trigger] methods@[j], name@, wanted),
            decreases methods@.len() - i,
        {
            let method = &methods[i];
            if str_eq(method.name.as_str(), name) && method.arg_types.len() == arg_types.len() {
                let mut same = true;
                let mut k: usize = 0;
                while k < method.arg_types.len()
                    invariant
                        k <= method.arg_types@.len(),
                        method.arg_types@.len() == arg_types@.len(),
                        wanted == arg_types@.map_values(|t: &str| t@),
                        same <==> forall|j: int| 0 <= j < k ==> method.arg_types@[j]@ == wanted[j],
                    decreases method.arg_types@.len() - k,
                {
                    let eq = str_eq(arg_types[k], method.arg_types[k].as_str());
                    assert(wanted[k as int] == arg_types@[k as int]@);
                    if !eq {
                        same = false;
                    }
                    k = k + 1;
                }
                let fail = !same;
                if !fail {
                    assert(spec_signature_matches(methods@[i as int], name@, wanted));
                    return Some(Il2cppMethod(method.method.0));
                }
            }
            assert(!spec_signature_matches(methods@[i as int], name@, wanted));
            i = i + 1;
        }
        None
    }
}

/// A method of a class as the method lookup sees it.
pub struct MethodSignature {
    pub method: Il2cppMethod,
    pub name: String,
    /// Names of the argument types, in order.
    pub arg_types: Vec<String>,
}

/// Whether a method has the given name and argument type names.
pub open spec fn spec_signature_matches(
    m: MethodSignature,
    name: Seq<char>,
    arg_types: Seq<Seq<char>>,
) -> bool {
    &&& m.name@ == name
    &&& m.arg_types@.len() == arg_types.len()
    &&& forall|i: int| 0 <= i < arg_types.len() ==> m.arg_types@[i]@ == #[trigger] arg_types[i]
}

impl Il2cppField {
    /// Whether the field belongs to objects rather than to the class: its type
    /// does not carry the static flag.
    pub fn is_instance(&self) -> (r: bool)
        ensures
            r == (self.type_attrs & FIELD_ATTRIBUTE_STATIC == 0),
    {
        self.type_attrs & FIELD_ATTRIBUTE_STATIC == 0
    }

    /// Address of the field's data inside an object (wrapping address arithmetic).
    pub fn get_field_data_ptr(&self, obj: &Il2cppObject) -> (address: usize)
        ensures
            address == vstd::wrapping::usize_specs::wrapping_add(obj.0, self.offset as usize),
    {
        obj.0.wrapping_add(self.offset as usize)
    }
}

} // verus!
