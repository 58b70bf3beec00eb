use easyofd_signature::verify_containers::{
    DigitalValidateContainer, Gbt35275ValidateContainer, OfdValidator, SesV1ValidateContainer,
    SesV4ValidateContainer, SesV5ValidateContainer, SignedDataValidateContainer,
};

#[test]
fn digital_validate_container_creation() {
    let container = DigitalValidateContainer::new(vec![0x04, 0x01, 0x02]);
    assert_eq!(container.public_key_bytes(), &[0x04, 0x01, 0x02]);
}

#[test]
fn digital_validate_empty_key_fails() {
    let container = DigitalValidateContainer::new(vec![]);
    let result = container.validate(&[0x01], &[0x02]);
    assert!(result.is_err());
}

#[test]
fn gbt35275_validate_container_creation() {
    let container = Gbt35275ValidateContainer::new(vec![vec![0x30, 0x03]]);
    assert_eq!(container.trust_certs().len(), 1);
}

#[test]
fn gbt35275_validate_empty_certs_fails() {
    let container = Gbt35275ValidateContainer::new(vec![]);
    let result = container.validate(&[0x01], &[0x02]);
    assert!(result.is_err());
}

#[test]
fn ses_containers_validate_ok() {
    let v1 = SesV1ValidateContainer;
    let v4 = SesV4ValidateContainer;
    let v5 = SesV5ValidateContainer;
    assert!(v1.validate(&[0x01], &[0x02]).is_ok());
    assert!(v4.validate(&[0x01], &[0x02]).is_ok());
    assert!(v5.validate(&[0x01], &[0x02]).is_ok());
}

#[test]
fn ofd_validator_default_is_empty() {
    let validator = OfdValidator::new();
    assert_eq!(validator.container_count(), 0);
}

#[test]
fn ofd_validator_add_container() {
    let mut validator = OfdValidator::new();
    validator.add_container(Box::new(SesV1ValidateContainer));
    validator.add_container(Box::new(DigitalValidateContainer::new(vec![0x04])));
    assert_eq!(validator.container_count(), 2);
}

#[test]
fn validate_error_messages() {
    let e = DigitalValidateContainer::new(vec![]).validate(&[], &[]).unwrap_err();
    assert_eq!(e.to_string(), "OFD 验证异常: 公钥为空");
    let e = Gbt35275ValidateContainer::new(vec![]).validate(&[], &[]).unwrap_err();
    assert_eq!(e.to_string(), "OFD 验证异常: 信任锚证书列表为空");
}
