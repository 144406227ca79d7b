use vstd::prelude::*;
use crate::protocol::commands::ShdlcCommand;
use crate::protocol::errors::ShdlcError;
use crate::protocol::time::Duration;
use vstd::utf8::{decode_utf8, valid_utf8};

verus! {

/// What `String::from_utf8_lossy` makes of a byte sequence.
pub uninterp spec fn utf8_lossy_text(bytes: Seq<u8>) -> Seq<char>;

/// std's `String::from_utf8_lossy`: decodes UTF-8 and replaces each invalid
/// sequence by U+FFFD. The contract names the result and states that valid
/// UTF-8 decodes unchanged; which invalid sequences are replaced is not stated.
#[verifier::external_body]
fn utf8_lossy(data: &[u8]) -> (s: String)
    ensures
        s@ == utf8_lossy_text(data@),
        valid_utf8(data@) ==> s@ == decode_utf8(data@),
{
    String::from_utf8_lossy(data).into_owned()
}

/// A text without its trailing NUL characters.
pub open spec fn trim_trailing_nul(s: Seq<char>) -> Seq<char>
    decreases s.len(),
{
    if s.len() > 0 && s.last() == '\0' {
        trim_trailing_nul(s.drop_last())
    } else {
        s
    }
}

/// The text that a device sends as a NUL-terminated string.
pub open spec fn device_text(data: Seq<u8>) -> Seq<char> {
    trim_trailing_nul(utf8_lossy_text(data))
}

fn decode_null_terminated_string(data: &[u8]) -> (r: Result<String, ShdlcError>)
    ensures
        r matches Ok(s) && s@ == device_text(data@),
{
    let s = utf8_lossy(data);
    let text = s.as_str();
    let mut end = text.unicode_len();
    assert(text@.take(end as int) =~= text@);
    while end > 0 && text.get_char(end - 1) == '\0'
        invariant
            end <= text@.len(),
            text@ == utf8_lossy_text(data@),
            trim_trailing_nul(text@) == trim_trailing_nul(text@.take(end as int)),
        decreases end,
    {
        assert(text@.take(end as int).drop_last() =~= text@.take(end - 1));
        end = end - 1;
    }
    assert(trim_trailing_nul(text@.take(end as int)) == text@.take(end as int));
    assert(text@.subrange(0, end as int) =~= text@.take(end as int));
    Ok(String::from_str(text.substring_char(0, end)))
}

/// Reads the product type of the device, as text.
#[derive(Debug, Clone, Copy, Default)]
pub struct GetProductType;

impl ShdlcCommand for GetProductType {
    type Response = String;

    open spec fn spec_id(&self) -> u8 {
        0xD0
    }

    open spec fn spec_data(&self) -> Seq<u8> {
        seq![0u8]
    }

    open spec fn spec_max_response_time(&self) -> Duration {
        Duration::spec_from_millis(500)
    }

    open spec fn spec_min_response_length(&self) -> usize {
        0
    }

    open spec fn spec_max_response_length(&self) -> usize {
        255
    }

    open spec fn spec_post_processing_time(&self) -> Duration {
        Duration::spec_from_secs(0)
    }

    open spec fn interpret_requires(&self, data: Seq<u8>) -> bool {
        true
    }

    open spec fn interpret_ensures(&self, data: Seq<u8>, r: Result<String, ShdlcError>) -> bool {
        r matches Ok(s) && s@ == device_text(data)
    }

    proof fn lemma_length_admits_interpretation(&self, data: Seq<u8>) {
    }

    fn id(&self) -> (r: u8) {
        0xD0
    }

    fn data(&self) -> (r: Vec<u8>) {
        let mut v: Vec<u8> = Vec::new();
        v.push(0);
        v
    }

    fn max_response_time(&self) -> (r: Duration) {
        Duration::from_millis(500)
    }

    fn min_response_length(&self) -> (r: usize) {
        0
    }

    fn max_response_length(&self) -> (r: usize) {
        255
    }

    fn post_processing_time(&self) -> (r: Duration) {
        Duration::from_secs(0)
    }

    fn interpret_response(&self, data: &[u8]) -> (r: Result<String, ShdlcError>) {
        decode_null_terminated_string(data)
    }
}

/// Reads the product name of the device.
#[derive(Debug, Clone, Copy, Default)]
pub struct GetProductName;

impl ShdlcCommand for GetProductName {
    type Response = String;

    open spec fn spec_id(&self) -> u8 {
        0xD0
    }

    open spec fn spec_data(&self) -> Seq<u8> {
        seq![1u8]
    }

    open spec fn spec_max_response_time(&self) -> Duration {
        Duration::spec_from_millis(500)
    }

    open spec fn spec_min_response_length(&self) -> usize {
        0
    }

    open spec fn spec_max_response_length(&self) -> usize {
        255
    }

    open spec fn spec_post_processing_time(&self) -> Duration {
        Duration::spec_from_secs(0)
    }

    open spec fn interpret_requires(&self, data: Seq<u8>) -> bool {
        true
    }

    open spec fn interpret_ensures(&self, data: Seq<u8>, r: Result<String, ShdlcError>) -> bool {
        r matches Ok(s) && s@ == device_text(data)
    }

    proof fn lemma_length_admits_interpretation(&self, data: Seq<u8>) {
    }

    fn id(&self) -> (r: u8) {
        0xD0
    }

    fn data(&self) -> (r: Vec<u8>) {
        let mut v: Vec<u8> = Vec::new();
        v.push(1);
        v
    }

    fn max_response_time(&self) -> (r: Duration) {
        Duration::from_millis(500)
    }

    fn min_response_length(&self) -> (r: usize) {
        0
    }

    fn max_response_length(&self) -> (r: usize) {
        255
    }

    fn post_processing_time(&self) -> (r: Duration) {
        Duration::from_secs(0)
    }

    fn interpret_response(&self, data: &[u8]) -> (r: Result<String, ShdlcError>) {
        decode_null_terminated_string(data)
    }
}

/// Reads the article code of the device.
#[derive(Debug, Clone, Copy, Default)]
pub struct GetArticleCode;

impl ShdlcCommand for GetArticleCode {
    type Response = String;

    open spec fn spec_id(&self) -> u8 {
        0xD0
    }

    open spec fn spec_data(&self) -> Seq<u8> {
        seq![2u8]
    }

    open spec fn spec_max_response_time(&self) -> Duration {
        Duration::spec_from_millis(500)
    }

    open spec fn spec_min_response_length(&self) -> usize {
        0
    }

    open spec fn spec_max_response_length(&self) -> usize {
        255
    }

    open spec fn spec_post_processing_time(&self) -> Duration {
        Duration::spec_from_secs(0)
    }

    open spec fn interpret_requires(&self, data: Seq<u8>) -> bool {
        true
    }

    open spec fn interpret_ensures(&self, data: Seq<u8>, r: Result<String, ShdlcError>) -> bool {
        r matches Ok(s) && s@ == device_text(data)
    }

    proof fn lemma_length_admits_interpretation(&self, data: Seq<u8>) {
    }

    fn id(&self) -> (r: u8) {
        0xD0
    }

    fn data(&self) -> (r: Vec<u8>) {
        let mut v: Vec<u8> = Vec::new();
        v.push(2);
        v
    }

    fn max_response_time(&self) -> (r: Duration) {
        Duration::from_millis(500)
    }

    fn min_response_length(&self) -> (r: usize) {
        0
    }

    fn max_response_length(&self) -> (r: usize) {
        255
    }

    fn post_processing_time(&self) -> (r: Duration) {
        Duration::from_secs(0)
    }

    fn interpret_response(&self, data: &[u8]) -> (r: Result<String, ShdlcError>) {
        decode_null_terminated_string(data)
    }
}

/// Reads the serial number of the device.
#[derive(Debug, Clone, Copy, Default)]
pub struct GetSerialNumber;

impl ShdlcCommand for GetSerialNumber {
    type Response = String;

    open spec fn spec_id(&self) -> u8 {
        0xD0
    }

    open spec fn spec_data(&self) -> Seq<u8> {
        seq![3u8]
    }

    open spec fn spec_max_response_time(&self) -> Duration {
        Duration::spec_from_millis(500)
    }

    open spec fn spec_min_response_length(&self) -> usize {
        0
    }

    open spec fn spec_max_response_length(&self) -> usize {
        255
    }

    open spec fn spec_post_processing_time(&self) -> Duration {
        Duration::spec_from_secs(0)
    }

    open spec fn interpret_requires(&self, data: Seq<u8>) -> bool {
        true
    }

    open spec fn interpret_ensures(&self, data: Seq<u8>, r: Result<String, ShdlcError>) -> bool {
        r matches Ok(s) && s@ == device_text(data)
    }

    proof fn lemma_length_admits_interpretation(&self, data: Seq<u8>) {
    }

    fn id(&self) -> (r: u8) {
        0xD0
    }

    fn data(&self) -> (r: Vec<u8>) {
        let mut v: Vec<u8> = Vec::new();
        v.push(3);
        v
    }

    fn max_response_time(&self) -> (r: Duration) {
        Duration::from_millis(500)
    }

    fn min_response_length(&self) -> (r: usize) {
        0
    }

    fn max_response_length(&self) -> (r: usize) {
        255
    }

    fn post_processing_time(&self) -> (r: Duration) {
        Duration::from_secs(0)
    }

    fn interpret_response(&self, data: &[u8]) -> (r: Result<String, ShdlcError>) {
        decode_null_terminated_string(data)
    }
}

/// Reads the product sub-type of the device.
#[derive(Debug, Clone, Copy, Default)]
pub struct GetProductSubType;

impl ShdlcCommand for GetProductSubType {
    type Response = u8;

    open spec fn spec_id(&self) -> u8 {
        0xD0
    }

    open spec fn spec_data(&self) -> Seq<u8> {
        seq![4u8]
    }

    open spec fn spec_max_response_time(&self) -> Duration {
        Duration::spec_from_millis(500)
    }

    open spec fn spec_min_response_length(&self) -> usize {
        1
    }

    open spec fn spec_max_response_length(&self) -> usize {
        1
    }

    open spec fn spec_post_processing_time(&self) -> Duration {
        Duration::spec_from_secs(0)
    }

    open spec fn interpret_requires(&self, data: Seq<u8>) -> bool {
        data.len() >= 1
    }

    open spec fn interpret_ensures(&self, data: Seq<u8>, r: Result<u8, ShdlcError>) -> bool {
        r == Ok::<u8, ShdlcError>(data[0])
    }

    proof fn lemma_length_admits_interpretation(&self, data: Seq<u8>) {
    }

    fn id(&self) -> (r: u8) {
        0xD0
    }

    fn data(&self) -> (r: Vec<u8>) {
        let mut v: Vec<u8> = Vec::new();
        v.push(4);
        v
    }

    fn max_response_time(&self) -> (r: Duration) {
        Duration::from_millis(500)
    }

    fn min_response_length(&self) -> (r: usize) {
        1
    }

    fn max_response_length(&self) -> (r: usize) {
        1
    }

    fn post_processing_time(&self) -> (r: Duration) {
        Duration::from_secs(0)
    }

    fn interpret_response(&self, data: &[u8]) -> (r: Result<u8, ShdlcError>) {
        Ok(data[0])
    }
}

/// The device-information requests are the SHDLC sub-commands of command
/// 0xD0, numbered in the order of the protocol: product type 0, product name
/// 1, article code 2, serial number 3, product subtype 4. Each request sends
/// its number alone, so no two of them ask for the same information.
pub proof fn lemma_device_info_subcommands(
    product_type: GetProductType,
    product_name: GetProductName,
    article_code: GetArticleCode,
    serial_number: GetSerialNumber,
    product_subtype: GetProductSubType,
)
    ensures
        product_type.spec_id() == 0xD0 && product_name.spec_id() == 0xD0 && article_code.spec_id()
            == 0xD0 && serial_number.spec_id() == 0xD0 && product_subtype.spec_id() == 0xD0,
        product_type.spec_data() == seq![0u8],
        product_name.spec_data() == seq![1u8],
        article_code.spec_data() == seq![2u8],
        serial_number.spec_data() == seq![3u8],
        product_subtype.spec_data() == seq![4u8],
{
}

} // verus!
