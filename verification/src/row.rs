//! The fixed-width row format: an identifier, a user name and an e-mail
//! address, laid out one after the other in 295 bytes.

use crate::codec::{
    be_bytes, be_value, copy_into, lemma_be_value_of_be_bytes, lemma_be_value_of_eight,
    lemma_pad_then_trim, lemma_padding_is_utf8, lemma_trim_is_prefix, lemma_trimmed_utf8,
    no_trailing_zero, pad_zeros, trim_zeros, trimmed_len, u64_from_be_bytes, u64_to_be_bytes,
};
use std::string::FromUtf8Error;
use vstd::prelude::*;
use vstd::slice::slice_to_vec;
use vstd::std_specs::convert::{FromSpecImpl, TryFromSpecImpl};
use vstd::utf8::{
    decode_utf8, decode_utf8_encode_utf8, encode_scalar, encode_utf8, encode_utf8_decode_utf8,
    encode_utf8_valid_utf8, has_width_1_encoding, valid_utf8,
};

verus! {

/// Width in bytes of an encoded identifier.
pub const ID_SIZE: usize = 8;

/// Width in bytes of an encoded user name.
pub const USERNAME_SIZE: usize = 32;

/// Width in bytes of an encoded e-mail address.
pub const EMAIL_SIZE: usize = 255;

/// Width in bytes of an encoded row.
pub const ROW_SIZE: usize = 295;

/// The error of `String::from_utf8`, carried through unopened.
#[verifier::external_type_specification]
#[verifier::external_body]
pub struct ExFromUtf8Error(FromUtf8Error);

/// `String::from_utf8` succeeds exactly on well-formed UTF-8, and the string
/// it returns is made of the bytes it was given.
pub assume_specification[ String::from_utf8 ](vec: Vec<u8>) -> (r: Result<String, FromUtf8Error>)
    ensures
        r is Ok <==> valid_utf8(vec@),
        r matches Ok(s) ==> encode_utf8(s@) == vec@,
;

/// Why a byte slice could not be read as a row.
#[derive(Debug, PartialEq)]
pub enum DeserializeError {
    /// The slice is shorter than a row; the length it has.
    InvalidBytesSlice(usize),
    /// A text field does not hold UTF-8.
    FromUtf8Error(FromUtf8Error),
    /// A field could not be cut out of the slice.
    TryFromSliceError { name: String, expected_size: usize, obtained_size: usize },
}

/// Copies `src` to the front of a fresh array of `N` zero bytes.
fn padded_array<const N: usize>(src: &[u8]) -> (r: [u8; N])
    requires
        src@.len() <= N,
    ensures
        r@ == pad_zeros(src@, N as nat),
{
    let mut r = [0u8; N];
    let mut i: usize = 0;
    while i < src.len()
        invariant
            i <= src@.len() <= N,
            forall|j: int| 0 <= j < i ==> r@[j] == src@[j],
            forall|j: int| i <= j < N ==> r@[j] == 0,
        decreases src@.len() - i,
    {
        r[i] = src[i];
        i += 1;
    }
    assert(r@ =~= pad_zeros(src@, N as nat));
    r
}

/// Reads a zero-padded text field: the field has to be UTF-8 as a whole, and
/// the text is what stands before its trailing zero bytes.
fn text_of_field(field: &[u8]) -> (r: Result<String, FromUtf8Error>)
    ensures
        r is Ok <==> valid_utf8(field@),
        r matches Ok(s) ==> (encode_utf8(s@) == trim_zeros(field@) && s@ == decode_utf8(
            trim_zeros(field@),
        )),
{
    let mut n: usize = field.len();
    assert(field@.subrange(0, n as int) =~= field@);
    while n > 0 && field[n - 1] == 0
        invariant
            n <= field@.len(),
            trimmed_len(field@) == trimmed_len(field@.subrange(0, n as int)),
        decreases n,
    {
        proof {
            let head = field@.subrange(0, n as int);
            assert(head.drop_last() =~= field@.subrange(0, n - 1));
        }
        n -= 1;
    }
    assert(n == trimmed_len(field@));
    match String::from_utf8(slice_to_vec(field)) {
        Err(e) => Err(e),
        Ok(s) => {
            proof {
                lemma_trimmed_utf8(field@);
                encode_utf8_decode_utf8(s@);
                decode_utf8_encode_utf8(trim_zeros(field@));
            }
            let (head, _) = s.as_str().split_at(n);
            let text = head.to_owned();
            proof {
                encode_utf8_decode_utf8(text@);
            }
            Ok(text)
        },
    }
}

/// A row identifier: a 64-bit unsigned number.
#[derive(Debug, Clone, PartialEq)]
pub struct Id(u64);

impl View for Id {
    type V = u64;

    closed spec fn view(&self) -> u64 {
        self.0
    }
}

impl Id {
    pub const MAX_SIZE: usize = ID_SIZE;

    pub fn new(id: u64) -> (r: Self)
        ensures
            r@ == id,
    {
        Self(id)
    }
}

impl std::ops::Deref for Id {
    type Target = u64;

    fn deref(&self) -> (r: &u64)
        ensures
            *r == self@,
    {
        &self.0
    }
}

/// The array of `N` bytes that holds `s`.
pub open spec fn array_of<const N: usize>(s: Seq<u8>) -> [u8; N] {
    choose|a: [u8; N]| a@ == s
}

impl From<Id> for [u8; ID_SIZE] {
    /// The identifier as eight bytes, most significant first.
    fn from(id: Id) -> (r: [u8; ID_SIZE])
        ensures
            r@ == be_bytes(id@),
    {
        let r = u64_to_be_bytes(id.0);
        assert(r =~= array_of::<ID_SIZE>(be_bytes(id@)));
        r
    }
}

impl FromSpecImpl<Id> for [u8; ID_SIZE] {
    open spec fn obeys_from_spec() -> bool {
        true
    }

    open spec fn from_spec(id: Id) -> [u8; ID_SIZE] {
        array_of::<ID_SIZE>(be_bytes(id@))
    }
}

impl From<[u8; ID_SIZE]> for Id {
    /// The identifier that eight bytes spell, most significant first.
    fn from(arr: [u8; ID_SIZE]) -> (r: Id)
        ensures
            r@ == be_value(arr@),
    {
        Id(u64_from_be_bytes(&arr))
    }
}

impl FromSpecImpl<[u8; ID_SIZE]> for Id {
    open spec fn obeys_from_spec() -> bool {
        true
    }

    closed spec fn from_spec(arr: [u8; ID_SIZE]) -> Id {
        Id(be_value(arr@) as u64)
    }
}

/// A user name: text whose UTF-8 form has at most 32 bytes.
#[derive(Debug, PartialEq)]
pub struct Username(String);

impl Clone for Username {
    fn clone(&self) -> (r: Self)
        ensures
            r@ == self@,
    {
        proof {
            use_type_invariant(self);
        }
        Username(self.0.clone())
    }
}

impl View for Username {
    type V = Seq<char>;

    closed spec fn view(&self) -> Seq<char> {
        self.0@
    }
}

impl Username {
    pub const MAX_SIZE: usize = USERNAME_SIZE;

    #[verifier::type_invariant]
    spec fn fits(self) -> bool {
        encode_utf8(self.0@).len() <= USERNAME_SIZE
    }

    pub fn new(username: String) -> (r: Self)
        requires
            encode_utf8(username@).len() <= USERNAME_SIZE,
        ensures
            r@ == username@,
    {
        Self(username)
    }
}

impl std::ops::Deref for Username {
    type Target = String;

    fn deref(&self) -> (r: &String)
        ensures
            r@ == self@,
            encode_utf8(r@).len() <= USERNAME_SIZE,
    {
        proof {
            use_type_invariant(self);
        }
        &self.0
    }
}

impl From<Username> for [u8; USERNAME_SIZE] {
    /// The name's UTF-8 bytes, followed by zero bytes up to the field's width.
    fn from(username: Username) -> (r: [u8; USERNAME_SIZE])
        ensures
            r@ == pad_zeros(encode_utf8(username@), USERNAME_SIZE as nat),
    {
        proof {
            use_type_invariant(&username);
        }
        let r = padded_array::<USERNAME_SIZE>(username.0.as_str().as_bytes());
        assert(r =~= array_of::<USERNAME_SIZE>(
            pad_zeros(encode_utf8(username@), USERNAME_SIZE as nat),
        ));
        r
    }
}

impl FromSpecImpl<Username> for [u8; USERNAME_SIZE] {
    open spec fn obeys_from_spec() -> bool {
        true
    }

    open spec fn from_spec(username: Username) -> [u8; USERNAME_SIZE] {
        array_of::<USERNAME_SIZE>(pad_zeros(encode_utf8(username@), USERNAME_SIZE as nat))
    }
}

impl TryFrom<[u8; USERNAME_SIZE]> for Username {
    type Error = DeserializeError;

    /// Reads a name field: it fails exactly when the field is not UTF-8, and
    /// the name is the text before the field's trailing zero bytes.
    fn try_from(arr: [u8; USERNAME_SIZE]) -> (r: Result<Self, DeserializeError>)
        ensures
            valid_utf8(arr@) ==> (r matches Ok(u) && u@ == decode_utf8(trim_zeros(arr@))),
            !valid_utf8(arr@) ==> r matches Err(DeserializeError::FromUtf8Error(_)),
    {
        match text_of_field(arr.as_slice()) {
            Ok(text) => {
                proof {
                    lemma_trim_is_prefix(arr@);
                }
                Ok(Username(text))
            },
            Err(e) => Err(DeserializeError::FromUtf8Error(e)),
        }
    }
}

impl TryFromSpecImpl<[u8; USERNAME_SIZE]> for Username {
    open spec fn obeys_try_from_spec() -> bool {
        false
    }

    closed spec fn try_from_spec(arr: [u8; USERNAME_SIZE]) -> Result<Self, DeserializeError> {
        Err(DeserializeError::InvalidBytesSlice(0))
    }
}

/// An e-mail address: text whose UTF-8 form has at most 255 bytes.
#[derive(Debug, PartialEq)]
pub struct Email(String);

impl Clone for Email {
    fn clone(&self) -> (r: Self)
        ensures
            r@ == self@,
    {
        proof {
            use_type_invariant(self);
        }
        Email(self.0.clone())
    }
}

impl View for Email {
    type V = Seq<char>;

    closed spec fn view(&self) -> Seq<char> {
        self.0@
    }
}

impl Email {
    pub const MAX_SIZE: usize = EMAIL_SIZE;

    #[verifier::type_invariant]
    spec fn fits(self) -> bool {
        encode_utf8(self.0@).len() <= EMAIL_SIZE
    }

    pub fn new(email: String) -> (r: Self)
        requires
            encode_utf8(email@).len() <= EMAIL_SIZE,
        ensures
            r@ == email@,
    {
        Self(email)
    }
}

impl std::ops::Deref for Email {
    type Target = String;

    fn deref(&self) -> (r: &String)
        ensures
            r@ == self@,
            encode_utf8(r@).len() <= EMAIL_SIZE,
    {
        proof {
            use_type_invariant(self);
        }
        &self.0
    }
}

impl From<Email> for [u8; EMAIL_SIZE] {
    /// The address's UTF-8 bytes, followed by zero bytes up to the field's
    /// width.
    fn from(email: Email) -> (r: [u8; EMAIL_SIZE])
        ensures
            r@ == pad_zeros(encode_utf8(email@), EMAIL_SIZE as nat),
    {
        proof {
            use_type_invariant(&email);
        }
        let r = padded_array::<EMAIL_SIZE>(email.0.as_str().as_bytes());
        assert(r =~= array_of::<EMAIL_SIZE>(pad_zeros(encode_utf8(email@), EMAIL_SIZE as nat)));
        r
    }
}

impl FromSpecImpl<Email> for [u8; EMAIL_SIZE] {
    open spec fn obeys_from_spec() -> bool {
        true
    }

    open spec fn from_spec(email: Email) -> [u8; EMAIL_SIZE] {
        array_of::<EMAIL_SIZE>(pad_zeros(encode_utf8(email@), EMAIL_SIZE as nat))
    }
}

impl TryFrom<[u8; EMAIL_SIZE]> for Email {
    type Error = DeserializeError;

    /// Reads an address field: it fails exactly when the field is not UTF-8,
    /// and the address is the text before the field's trailing zero bytes.
    fn try_from(arr: [u8; EMAIL_SIZE]) -> (r: Result<Self, DeserializeError>)
        ensures
            valid_utf8(arr@) ==> (r matches Ok(e) && e@ == decode_utf8(trim_zeros(arr@))),
            !valid_utf8(arr@) ==> r matches Err(DeserializeError::FromUtf8Error(_)),
    {
        match text_of_field(arr.as_slice()) {
            Ok(text) => {
                proof {
                    lemma_trim_is_prefix(arr@);
                }
                Ok(Email(text))
            },
            Err(e) => Err(DeserializeError::FromUtf8Error(e)),
        }
    }
}

impl TryFromSpecImpl<[u8; EMAIL_SIZE]> for Email {
    open spec fn obeys_try_from_spec() -> bool {
        false
    }

    closed spec fn try_from_spec(arr: [u8; EMAIL_SIZE]) -> Result<Self, DeserializeError> {
        Err(DeserializeError::InvalidBytesSlice(0))
    }
}

/// What a row holds: its identifier and its two texts.
pub struct RowView {
    pub id: u64,
    pub username: Seq<char>,
    pub email: Seq<char>,
}

/// One record of the table.
#[derive(Debug, Clone, PartialEq)]
pub struct Row {
    id: Id,
    username: Username,
    email: Email,
}

impl View for Row {
    type V = RowView;

    closed spec fn view(&self) -> RowView {
        RowView { id: self.id@, username: self.username@, email: self.email@ }
    }
}

/// Whether both texts of `row` fit in their fields.
pub open spec fn row_fits(row: RowView) -> bool {
    &&& encode_utf8(row.username).len() <= USERNAME_SIZE
    &&& encode_utf8(row.email).len() <= EMAIL_SIZE
}

/// The 295 bytes of `row`: the identifier in big-endian form, then the name
/// and the address, each filled up with zero bytes to its width.
pub open spec fn encode_row(row: RowView) -> Seq<u8> {
    be_bytes(row.id) + pad_zeros(encode_utf8(row.username), USERNAME_SIZE as nat) + pad_zeros(
        encode_utf8(row.email),
        EMAIL_SIZE as nat,
    )
}

/// The bytes of the identifier in an encoded row.
pub open spec fn id_field(bytes: Seq<u8>) -> Seq<u8> {
    bytes.subrange(0, 8)
}

/// The bytes of the name in an encoded row.
pub open spec fn username_field(bytes: Seq<u8>) -> Seq<u8> {
    bytes.subrange(8, 40)
}

/// The bytes of the address in an encoded row.
pub open spec fn email_field(bytes: Seq<u8>) -> Seq<u8> {
    bytes.subrange(40, 295)
}

/// Whether `bytes` starts with a row that can be read: it is long enough and
/// both text fields hold UTF-8.
pub open spec fn row_decodes(bytes: Seq<u8>) -> bool {
    &&& bytes.len() >= ROW_SIZE
    &&& valid_utf8(username_field(bytes))
    &&& valid_utf8(email_field(bytes))
}

/// The row that `bytes` starts with.
pub open spec fn decode_row(bytes: Seq<u8>) -> RowView {
    RowView {
        id: be_value(id_field(bytes)) as u64,
        username: decode_utf8(trim_zeros(username_field(bytes))),
        email: decode_utf8(trim_zeros(email_field(bytes))),
    }
}

impl Row {
    pub const ID_OFFSET: usize = 0;

    pub const ID_RANGE: std::ops::Range<usize> = 0..8;

    pub const USERNAME_OFFSET: usize = 8;

    pub const USERNAME_RANGE: std::ops::Range<usize> = 8..40;

    pub const EMAIL_OFFSET: usize = 40;

    pub const EMAIL_RANGE: std::ops::Range<usize> = 40..295;

    pub const MAX_SIZE: usize = ROW_SIZE;

    pub fn new(id: Id, username: Username, email: Email) -> (r: Self)
        ensures
            r@ == (RowView { id: id@, username: username@, email: email@ }),
            row_fits(r@),
    {
        proof {
            use_type_invariant(&username);
            use_type_invariant(&email);
        }
        Self { id, username, email }
    }

    pub fn id(&self) -> (r: &Id)
        ensures
            r@ == self@.id,
    {
        &self.id
    }

    pub fn username(&self) -> (r: &Username)
        ensures
            r@ == self@.username,
    {
        &self.username
    }

    pub fn email(&self) -> (r: &Email)
        ensures
            r@ == self@.email,
    {
        &self.email
    }
}

impl From<Row> for [u8; ROW_SIZE] {
    /// The row's three fields at their fixed places.
    fn from(row: Row) -> (r: [u8; ROW_SIZE])
        ensures
            r@ == encode_row(row@),
    {
        let Row { id, username, email } = row;
        let id_bytes = <[u8; ID_SIZE]>::from(id);
        let username_bytes = <[u8; USERNAME_SIZE]>::from(username);
        let email_bytes = <[u8; EMAIL_SIZE]>::from(email);
        let mut bytes = [0u8; ROW_SIZE];
        copy_into(&mut bytes, 0, id_bytes.as_slice());
        copy_into(&mut bytes, 8, username_bytes.as_slice());
        copy_into(&mut bytes, 40, email_bytes.as_slice());
        assert(bytes@ =~= encode_row(row@));
        assert(bytes =~= array_of::<ROW_SIZE>(encode_row(row@)));
        bytes
    }
}

impl FromSpecImpl<Row> for [u8; ROW_SIZE] {
    open spec fn obeys_from_spec() -> bool {
        true
    }

    open spec fn from_spec(row: Row) -> [u8; ROW_SIZE] {
        array_of::<ROW_SIZE>(encode_row(row@))
    }
}

impl TryFrom<&[u8]> for Row {
    type Error = DeserializeError;

    /// Reads the row that `arr` starts with. A slice of fewer than 295 bytes
    /// is refused with its length, a text field that is not UTF-8 is refused
    /// with the error of the conversion, and every other slice gives its row.
    fn try_from(arr: &[u8]) -> (r: Result<Self, DeserializeError>)
        ensures
            arr@.len() < ROW_SIZE ==> (r matches Err(DeserializeError::InvalidBytesSlice(n)) && n
                == arr@.len()),
            arr@.len() >= ROW_SIZE && !row_decodes(arr@) ==> r matches Err(
                DeserializeError::FromUtf8Error(_),
            ),
            row_decodes(arr@) ==> (r matches Ok(row) && row@ == decode_row(arr@)),
    {
        if arr.len() < ROW_SIZE {
            return Err(DeserializeError::InvalidBytesSlice(arr.len()));
        }
        let id_bytes = padded_array::<ID_SIZE>(&arr[0..8]);
        let username_bytes = padded_array::<USERNAME_SIZE>(&arr[8..40]);
        let email_bytes = padded_array::<EMAIL_SIZE>(&arr[40..295]);
        proof {
            assert(id_bytes@ =~= id_field(arr@));
            assert(username_bytes@ =~= username_field(arr@));
            assert(email_bytes@ =~= email_field(arr@));
            lemma_be_value_of_eight(id_bytes@);
        }
        let id = Id::from(id_bytes);
        let username = match Username::try_from(username_bytes) {
            Ok(username) => username,
            Err(e) => {
                return Err(e);
            },
        };
        let email = match Email::try_from(email_bytes) {
            Ok(email) => email,
            Err(e) => {
                return Err(e);
            },
        };
        Ok(Self { id, username, email })
    }
}

impl TryFromSpecImpl<&[u8]> for Row {
    open spec fn obeys_try_from_spec() -> bool {
        false
    }

    closed spec fn try_from_spec(arr: &[u8]) -> Result<Self, DeserializeError> {
        Err(DeserializeError::InvalidBytesSlice(0))
    }
}

/// An encoded row has exactly 295 bytes, and its three fields lie one after
/// the other at fixed places.
pub proof fn lemma_encode_row_layout(row: RowView)
    ensures
        encode_row(row).len() == ROW_SIZE,
        id_field(encode_row(row)) == be_bytes(row.id),
        username_field(encode_row(row)) == pad_zeros(
            encode_utf8(row.username),
            USERNAME_SIZE as nat,
        ),
        email_field(encode_row(row)) == pad_zeros(encode_utf8(row.email), EMAIL_SIZE as nat),
{
    let bytes = encode_row(row);
    assert(id_field(bytes) =~= be_bytes(row.id));
    assert(username_field(bytes) =~= pad_zeros(encode_utf8(row.username), USERNAME_SIZE as nat));
    assert(email_field(bytes) =~= pad_zeros(encode_utf8(row.email), EMAIL_SIZE as nat));
}

/// Whether `text` is empty or ends in a character other than NUL.
pub open spec fn no_trailing_nul(text: Seq<char>) -> bool {
    text.len() == 0 || text.last() != '\0'
}

/// The UTF-8 form of a text ends in a zero byte exactly when the text ends in
/// NUL.
pub proof fn lemma_trailing_nul(text: Seq<char>)
    ensures
        no_trailing_zero(encode_utf8(text)) <==> no_trailing_nul(text),
        text.len() > 0 ==> encode_utf8(text).len() > 0,
    decreases text.len(),
{
    if text.len() > 0 {
        let c = text[0] as u32;
        let rest = text.drop_first();
        vstd::utf8::char_is_scalar(text[0]);
        assert(has_width_1_encoding(c) ==> ((c & 0x7f) as u8 == 0 <==> c == 0)) by (bit_vector)
            requires
                c <= 0x10ffff,
        ;
        assert(0x80u8 | (c & 0x3f) as u8 != 0) by (bit_vector);
        lemma_trailing_nul(rest);
        if rest.len() > 0 {
            assert(rest.last() == text.last());
            assert(encode_utf8(text).last() == encode_utf8(rest).last());
        } else {
            assert(encode_utf8(rest).len() == 0);
            assert(encode_utf8(text) =~= encode_scalar(c));
            assert(c == 0 <==> text[0] == '\0') by {
                vstd::utf8::char_u32_cast(text[0], c);
                vstd::utf8::char_u32_cast('\0', 0u32);
            }
        }
    }
}

/// Encoding a row and reading the bytes back gives the row again, for every
/// row whose texts fit in their fields and do not end in NUL (a text that
/// ends in NUL comes back without it).
pub proof fn lemma_decode_encode(row: RowView)
    requires
        row_fits(row),
        no_trailing_nul(row.username),
        no_trailing_nul(row.email),
    ensures
        row_decodes(encode_row(row)),
        decode_row(encode_row(row)) == row,
{
    let bytes = encode_row(row);
    lemma_encode_row_layout(row);
    lemma_be_value_of_be_bytes(row.id);
    let name = encode_utf8(row.username);
    let mail = encode_utf8(row.email);
    encode_utf8_valid_utf8(row.username);
    encode_utf8_valid_utf8(row.email);
    lemma_padding_is_utf8(name, USERNAME_SIZE as nat);
    lemma_padding_is_utf8(mail, EMAIL_SIZE as nat);
    lemma_trailing_nul(row.username);
    lemma_trailing_nul(row.email);
    lemma_pad_then_trim(name, USERNAME_SIZE as nat);
    lemma_pad_then_trim(mail, EMAIL_SIZE as nat);
    encode_utf8_decode_utf8(row.username);
    encode_utf8_decode_utf8(row.email);
}

} // verus!
